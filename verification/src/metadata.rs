//! What one invocation of a stage is told on its command line.

use crate::error::{ErrorClass, StageError, StageErrorView};
use crate::text::{same_text, str_ends_with, words};
use vstd::prelude::*;
use vstd::string::*;

verus! {

/// The phase of a stage that one process runs.
#[derive(Clone, Copy, Debug, PartialEq, Eq, Structural)]
pub enum StageType {
    Split,
    Main,
    Join,
}

/// The state of one invocation: the stage and phase to run, and where its
/// files are. It is derived once from the arguments and never changes.
#[derive(Debug)]
pub struct Metadata {
    pub stage_name: String,
    pub stage_type: StageType,
    pub metadata_path: String,
    pub files_path: String,
    pub run_file: String,
}

/// A [`Metadata`] as plain values.
pub struct MetadataView {
    pub stage_name: Seq<char>,
    pub stage_type: StageType,
    pub metadata_path: Seq<char>,
    pub files_path: Seq<char>,
    pub run_file: Seq<char>,
}

impl View for Metadata {
    type V = MetadataView;

    open spec fn view(&self) -> MetadataView {
        MetadataView {
            stage_name: self.stage_name@,
            stage_type: self.stage_type,
            metadata_path: self.metadata_path@,
            files_path: self.files_path@,
            run_file: self.run_file@,
        }
    }
}

/// The phase that a word of the command line names, if it names one.
pub open spec fn stage_type_of(word: Seq<char>) -> Option<StageType> {
    if word == "split"@ {
        Some(StageType::Split)
    } else if word == "main"@ {
        Some(StageType::Main)
    } else if word == "join"@ {
        Some(StageType::Join)
    } else {
        None
    }
}

/// The word that names a phase.
pub open spec fn stage_type_name(phase: StageType) -> Seq<char> {
    match phase {
        StageType::Split => "split"@,
        StageType::Main => "main"@,
        StageType::Join => "join"@,
    }
}

/// The path of the metadata file `name` below the directory `dir`: the
/// directory, a `/` unless it is empty or ends in one, an underscore and
/// the name.
pub open spec fn metadata_file(dir: Seq<char>, name: Seq<char>) -> Seq<char> {
    if dir.len() == 0 || crate::text::ends_with(dir, "/"@) {
        dir + "_"@ + name
    } else {
        dir + "/_"@ + name
    }
}

/// What opens the message of every fault that arises before a stage is
/// looked up.
pub open spec fn init_context() -> Seq<char> {
    "IO Error initializing stage: "@
}

/// The message for a command line that is too short.
pub open spec fn missing_arguments_message() -> Seq<char> {
    init_context()
        + "expected the stage name, the stage type, the metadata path, the files path and the run file"@
}

/// The message for a command line whose second word names no phase.
pub open spec fn bad_stage_type_message(word: Seq<char>) -> Seq<char> {
    init_context() + "unrecognized stage type: "@ + word
}

/// The message for a fault that arose while the files of the invocation
/// were prepared.
pub open spec fn init_failure_message(cause: Seq<char>) -> Seq<char> {
    init_context() + cause
}

/// What [`initialize`] makes of a command line: the metadata it
/// describes, or the error that says why it describes none.
pub open spec fn initialize_spec(args: Seq<Seq<char>>) -> Result<MetadataView, StageErrorView> {
    if args.len() < 5 {
        Err(
            StageErrorView {
                message: missing_arguments_message(),
                backtrace: None,
                class: ErrorClass::Configuration,
            },
        )
    } else {
        match stage_type_of(args[1]) {
            None => Err(
                StageErrorView {
                    message: bad_stage_type_message(args[1]),
                    backtrace: None,
                    class: ErrorClass::Configuration,
                },
            ),
            Some(phase) => Ok(
                MetadataView {
                    stage_name: args[0],
                    stage_type: phase,
                    metadata_path: args[2],
                    files_path: args[3],
                    run_file: args[4],
                },
            ),
        }
    }
}

/// The view of a result of [`initialize`].
pub open spec fn initialized_view(r: Result<Metadata, StageError>) -> Result<
    MetadataView,
    StageErrorView,
> {
    match r {
        Ok(md) => Ok(md@),
        Err(e) => Err(e@),
    }
}

impl StageType {
    /// The phase that `word` names, if it names one.
    pub fn parse(word: &str) -> (r: Option<StageType>)
        ensures
            r == stage_type_of(word@),
    {
        if same_text(word, "split") {
            Some(StageType::Split)
        } else if same_text(word, "main") {
            Some(StageType::Main)
        } else if same_text(word, "join") {
            Some(StageType::Join)
        } else {
            None
        }
    }

    /// The word that names this phase.
    pub fn name(&self) -> (r: String)
        ensures
            r@ == stage_type_name(*self),
    {
        match self {
            StageType::Split => String::from_str("split"),
            StageType::Main => String::from_str("main"),
            StageType::Join => String::from_str("join"),
        }
    }
}

impl Metadata {
    /// The path of the metadata file `name` of this invocation.
    pub fn make_path(&self, name: &str) -> (path: String)
        ensures
            path@ == metadata_file(self@.metadata_path, name@),
    {
        let mut path = self.metadata_path.clone();
        let dir: &str = self.metadata_path.as_str();
        if dir.unicode_len() == 0 || str_ends_with(dir, "/") {
            path.append("_");
        } else {
            path.append("/_");
        }
        path.append(name);
        path
    }

    /// The path of the file that holds the arguments of the stage.
    pub fn args_path(&self) -> (path: String)
        ensures
            path@ == metadata_file(self@.metadata_path, "args"@),
    {
        self.make_path("args")
    }

    /// The path of the file that receives the outputs of the stage.
    pub fn outs_path(&self) -> (path: String)
        ensures
            path@ == metadata_file(self@.metadata_path, "outs"@),
    {
        self.make_path("outs")
    }

    /// The path of the file that describes the job.
    pub fn jobinfo_path(&self) -> (path: String)
        ensures
            path@ == metadata_file(self@.metadata_path, "jobinfo"@),
    {
        self.make_path("jobinfo")
    }

    /// The path of the file that tells the orchestrator how far the
    /// stage has come.
    pub fn progress_path(&self) -> (path: String)
        ensures
            path@ == metadata_file(self@.metadata_path, "progress"@),
    {
        self.make_path("progress")
    }

    /// The path of the log.
    pub fn log_path(&self) -> (path: String)
        ensures
            path@ == metadata_file(self@.metadata_path, "log"@),
    {
        self.make_path("log")
    }

    /// The path of the file that receives the error of a failed phase.
    pub fn errors_path(&self) -> (path: String)
        ensures
            path@ == metadata_file(self@.metadata_path, "errors"@),
    {
        self.make_path("errors")
    }

    /// The path of the file that receives a stack trace.
    pub fn stackvars_path(&self) -> (path: String)
        ensures
            path@ == metadata_file(self@.metadata_path, "stackvars"@),
    {
        self.make_path("stackvars")
    }

    /// A copy of this metadata.
    pub fn duplicate(&self) -> (md: Metadata)
        ensures
            md@ == self@,
    {
        Metadata {
            stage_name: self.stage_name.clone(),
            stage_type: self.stage_type,
            metadata_path: self.metadata_path.clone(),
            files_path: self.files_path.clone(),
            run_file: self.run_file.clone(),
        }
    }
}

/// Reads the command line of an invocation: the stage name, the stage type
/// (`split`, `main` or `join`), the metadata path, the files path and the
/// run file, in this order; what follows them is ignored.
///
/// Fails, without looking further, when fewer than five words are given,
/// and otherwise when the second names no phase.
pub fn initialize(args: Vec<String>) -> (r: Result<Metadata, StageError>)
    ensures
        initialized_view(r) == initialize_spec(words(args@)),
{
    if args.len() < 5 {
        let mut message = String::from_str("IO Error initializing stage: ");
        message.append(
            "expected the stage name, the stage type, the metadata path, the files path and the run file",
        );
        return Err(StageError { message, backtrace: None, class: ErrorClass::Configuration });
    }
    assert(words(args@)[0] == args@[0]@);
    assert(words(args@)[1] == args@[1]@);
    assert(words(args@)[2] == args@[2]@);
    assert(words(args@)[3] == args@[3]@);
    assert(words(args@)[4] == args@[4]@);
    match StageType::parse(args[1].as_str()) {
        None => {
            let mut message = String::from_str("IO Error initializing stage: ");
            message.append("unrecognized stage type: ");
            message.append(args[1].as_str());
            Err(StageError { message, backtrace: None, class: ErrorClass::Configuration })
        },
        Some(phase) => Ok(
            Metadata {
                stage_name: args[0].clone(),
                stage_type: phase,
                metadata_path: args[2].clone(),
                files_path: args[3].clone(),
                run_file: args[4].clone(),
            },
        ),
    }
}

/// The error for a fault that arose while the files of the invocation were
/// prepared, such as a job description that cannot be read.
pub fn initialization_error(cause: &str) -> (e: StageError)
    ensures
        e@ == (StageErrorView {
            message: init_failure_message(cause@),
            backtrace: None,
            class: ErrorClass::Io,
        }),
{
    let mut message = String::from_str("IO Error initializing stage: ");
    message.append(cause);
    let e = StageError { message, backtrace: None, class: ErrorClass::Io };
    e
}

} // verus!
