//! Errors that a stage reports, and the rule that marks some of them as
//! assertions.

use vstd::prelude::*;
use vstd::string::*;

verus! {

/// The class that the producer of an error gives it. The orchestrator never
/// sees the class itself: an [`AssertRule`] decides from it whether the
/// error is reported as an assertion.
#[derive(Clone, Copy, Debug, PartialEq, Eq, Structural)]
pub enum ErrorClass {
    /// A file or channel could not be read or written.
    Io,
    /// The pipeline is set up wrongly; running again will not help.
    Configuration,
    /// The data handed to the stage is not what it can work on.
    InvalidInput,
    /// Memory, disk or another resource ran out.
    Resource,
    /// Anything else.
    Other,
}

/// Where in the run of a phase a fault arose.
#[derive(Clone, Copy, Debug, PartialEq, Eq, Structural)]
pub enum FaultKind {
    /// The arguments did not describe a phase to run.
    Initialization,
    /// No stage is registered under the requested name.
    UnknownStage,
    /// The stage's own code returned an error.
    PhaseExecution,
    /// The stage's own code panicked.
    Panic,
}

/// An error of a stage: what to tell the operator, the stack trace where
/// one was captured, and the producer's class.
#[derive(Debug)]
pub struct StageError {
    pub message: String,
    pub backtrace: Option<String>,
    pub class: ErrorClass,
}

/// A [`StageError`] as plain values.
pub struct StageErrorView {
    pub message: Seq<char>,
    pub backtrace: Option<Seq<char>>,
    pub class: ErrorClass,
}

/// The characters of an optional string.
pub open spec fn opt_text(s: Option<String>) -> Option<Seq<char>> {
    match s {
        Some(t) => Some(t@),
        None => None,
    }
}

impl View for StageError {
    type V = StageErrorView;

    open spec fn view(&self) -> StageErrorView {
        StageErrorView {
            message: self.message@,
            backtrace: opt_text(self.backtrace),
            class: self.class,
        }
    }
}

/// A copy of an optional string.
pub fn copy_opt_text(s: &Option<String>) -> (r: Option<String>)
    ensures
        opt_text(r) == opt_text(*s),
{
    match s {
        Some(t) => Some(t.clone()),
        None => None,
    }
}

impl StageError {
    /// An error with the given message and class, and no stack trace.
    pub fn new(message: &str, class: ErrorClass) -> (e: StageError)
        ensures
            e@ == (StageErrorView { message: message@, backtrace: None, class }),
    {
        StageError { message: String::from_str(message), backtrace: None, class }
    }

    /// The same error, carrying `backtrace` as its stack trace.
    pub fn with_backtrace(self, backtrace: &str) -> (e: StageError)
        ensures
            e@ == (StageErrorView { backtrace: Some(backtrace@), ..self@ }),
    {
        StageError {
            message: self.message,
            backtrace: Some(String::from_str(backtrace)),
            class: self.class,
        }
    }

    /// A copy of this error.
    pub fn duplicate(&self) -> (e: StageError)
        ensures
            e@ == self@,
    {
        StageError {
            message: self.message.clone(),
            backtrace: copy_opt_text(&self.backtrace),
            class: self.class,
        }
    }

    /// The message, as the operator reads it.
    pub fn to_string(&self) -> (s: String)
        ensures
            s@ == self@.message,
    {
        self.message.clone()
    }
}

/// Which classes of error are reported as assertions. An assertion tells
/// the orchestrator that the fault is in the configuration and that the
/// operator must not simply run the pipeline again.
#[derive(Debug)]
pub struct AssertRule {
    classes: Vec<ErrorClass>,
}

impl View for AssertRule {
    type V = Set<ErrorClass>;

    closed spec fn view(&self) -> Set<ErrorClass> {
        self.classes@.to_set()
    }
}

impl AssertRule {
    /// The rule under which no error is an assertion.
    pub fn never() -> (rule: AssertRule)
        ensures
            rule@ == Set::<ErrorClass>::empty(),
    {
        let rule = AssertRule { classes: Vec::new() };
        assert(rule.classes@.to_set() =~= Set::<ErrorClass>::empty());
        rule
    }

    /// The rule under which exactly the errors of the given classes are
    /// assertions.
    pub fn on(classes: Vec<ErrorClass>) -> (rule: AssertRule)
        ensures
            rule@ == classes@.to_set(),
    {
        AssertRule { classes }
    }

    /// Whether the rule makes `error` an assertion.
    pub fn applies(&self, error: &StageError) -> (r: bool)
        ensures
            r == self@.contains(error@.class),
    {
        let mut i: usize = 0;
        while i < self.classes.len()
            invariant
                i <= self.classes.len(),
                forall|j: int| 0 <= j < i ==> self.classes@[j] != error.class,
            decreases self.classes.len() - i,
        {
            if self.classes[i] == error.class {
                assert(self.classes@.contains(error.class));
                return true;
            }
            i = i + 1;
        }
        assert(!self.classes@.contains(error.class));
        false
    }
}

/// The marker that opens the text of an assertion.
pub open spec fn assert_marker() -> Seq<char> {
    "ASSERT:"@
}

/// The text that goes to the error channel for a message: the message
/// itself, behind the assertion marker where it is an assertion.
pub open spec fn error_text(message: Seq<char>, is_assert: bool) -> Seq<char> {
    if is_assert {
        assert_marker() + message
    } else {
        message
    }
}

/// The text that goes to the error channel for `message`.
pub fn format_error(message: &str, is_assert: bool) -> (text: String)
    ensures
        text@ == error_text(message@, is_assert),
{
    if is_assert {
        let mut text = String::from_str("ASSERT:");
        text.append(message);
        text
    } else {
        String::from_str(message)
    }
}

} // verus!
