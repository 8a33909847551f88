//! Running one phase of one stage, and what to tell the orchestrator
//! about how it went.
//!
//! A run goes through the states *init*, *dispatched*, *running*, then
//! *succeeded* or *failed*, then *terminated*:
//!
//! - *init*: [`initialize`] reads the command line. A command line that
//!   describes no phase ends the run with [`initialization_failed`].
//! - *dispatched*: [`MartianAdapter::dispatch`] finds the stage and hands
//!   out a [`Dispatched`]; there is no other way to get one. A stage that
//!   is not registered ends the run. This is where the caller installs
//!   its panic hook and directs its log, with the metadata at hand.
//! - *running*: [`Dispatched::run`] runs the phase that was asked for.
//! - *succeeded* or *failed*: the run has its [`RunReport`].
//! - *terminated*: the caller has written the report out and ends the
//!   process with its exit code.
//!
//! Whatever made a run fail, the outcome is the same in kind: exit code 1
//! and exactly one text for the error channel. A run that succeeded has
//! exit code 0 and no such text. [`MartianAdapter::run_report`] goes all
//! the way in one call, for callers that have nothing to do in between.

use crate::error::{
    error_text, format_error, opt_text, AssertRule, ErrorClass, FaultKind, StageError,
    StageErrorView,
};
use crate::metadata::{
    initialize, initialize_spec, metadata_file, Metadata, MetadataView, StageType,
};
use crate::registry::StageRegistry;
use crate::text::{decimal, push_decimal, words};
use vstd::prelude::*;
use vstd::string::*;

verus! {

/// The least severity of the log messages that reach the log channel.
#[derive(Clone, Copy, Debug, PartialEq, Eq, Structural)]
pub enum LevelFilter {
    Off,
    Error,
    Warn,
    Info,
    Debug,
    Trace,
}

/// A stage, as the runner sees it: three phases, each of which reads what
/// it needs from the files that the metadata names and reports how it went.
pub trait RawMartianStage {
    /// Cuts the work into chunks.
    fn split(&self, md: &Metadata) -> Result<(), StageError>;

    /// Works on one chunk, or on everything where the stage has no chunks.
    fn main(&self, md: &Metadata) -> Result<(), StageError>;

    /// Puts the results of the chunks together.
    fn join(&self, md: &Metadata) -> Result<(), StageError>;
}

/// A text and the file that is to receive it.
#[derive(Debug)]
pub struct SideFile {
    pub path: String,
    pub text: String,
}

/// A [`SideFile`] as plain values.
pub struct SideFileView {
    pub path: Seq<char>,
    pub text: Seq<char>,
}

impl View for SideFile {
    type V = SideFileView;

    open spec fn view(&self) -> SideFileView {
        SideFileView { path: self.path@, text: self.text@ }
    }
}

/// Where a panic was raised.
#[derive(Debug)]
pub struct PanicLocation {
    pub file: String,
    pub line: u32,
}

/// How the run of a phase ended, and what the orchestrator is to be told.
#[derive(Debug)]
pub struct RunReport {
    /// The exit code of the process: 0 after success, 1 after any fault.
    pub exit_code: i32,
    /// Where the fault arose, if there was one.
    pub fault: Option<FaultKind>,
    /// The error behind the fault.
    pub error: Option<StageError>,
    /// The one text to write to the error channel.
    pub error_channel: Option<String>,
    /// The stack trace to leave beside the other metadata files.
    pub stackvars: Option<SideFile>,
    /// A line for the log channel.
    pub log: Option<String>,
}

/// A [`RunReport`] as plain values.
pub struct RunReportView {
    pub exit_code: int,
    pub fault: Option<FaultKind>,
    pub error: Option<StageErrorView>,
    pub error_channel: Option<Seq<char>>,
    pub stackvars: Option<SideFileView>,
    pub log: Option<Seq<char>>,
}

/// The view of an optional error.
pub open spec fn opt_error(e: Option<StageError>) -> Option<StageErrorView> {
    match e {
        Some(e) => Some(e@),
        None => None,
    }
}

/// The view of an optional side file.
pub open spec fn opt_side_file(f: Option<SideFile>) -> Option<SideFileView> {
    match f {
        Some(f) => Some(f@),
        None => None,
    }
}

impl View for RunReport {
    type V = RunReportView;

    open spec fn view(&self) -> RunReportView {
        RunReportView {
            exit_code: self.exit_code as int,
            fault: self.fault,
            error: opt_error(self.error),
            error_channel: opt_text(self.error_channel),
            stackvars: opt_side_file(self.stackvars),
            log: opt_text(self.log),
        }
    }
}

impl RunReportView {
    /// What every report of a run has in common: after success exit code 0,
    /// no error and nothing for the error channel; after a fault exit code
    /// 1, the error, and one text for the error channel.
    pub open spec fn converges(self) -> bool {
        if self.fault is None {
            &&& self.exit_code == 0
            &&& self.error is None
            &&& self.error_channel is None
            &&& self.stackvars is None
            &&& self.log is None
        } else {
            &&& self.exit_code == 1
            &&& self.error is Some
            &&& self.error_channel is Some
        }
    }
}

/// The report of a run that succeeded.
pub open spec fn success_report() -> RunReportView {
    RunReportView {
        exit_code: 0,
        fault: None,
        error: None,
        error_channel: None,
        stackvars: None,
        log: None,
    }
}

/// The report of a run whose command line described no phase to run: the
/// message goes to the error channel as it is.
pub open spec fn init_failed_report(error: StageErrorView) -> RunReportView {
    RunReportView {
        exit_code: 1,
        fault: Some(FaultKind::Initialization),
        error: Some(error),
        error_channel: Some(error.message),
        stackvars: None,
        log: None,
    }
}

/// The message that says that no stage has the requested name.
pub open spec fn unknown_stage_message(name: Seq<char>) -> Seq<char> {
    "Couldn't find requested Martian stage: "@ + name
}

/// The report of a run that asked for a stage that is not registered.
pub open spec fn unknown_stage_report(name: Seq<char>) -> RunReportView {
    RunReportView {
        exit_code: 1,
        fault: Some(FaultKind::UnknownStage),
        error: Some(
            StageErrorView {
                message: unknown_stage_message(name),
                backtrace: None,
                class: ErrorClass::Configuration,
            },
        ),
        error_channel: Some(unknown_stage_message(name)),
        stackvars: None,
        log: None,
    }
}

/// The stack trace of an error, bound for the stack-trace file below
/// `metadata_path`; nothing where the error carries none.
pub open spec fn trace_file(metadata_path: Seq<char>, error: StageErrorView) -> Option<
    SideFileView,
> {
    match error.backtrace {
        Some(text) => Some(
            SideFileView { path: metadata_file(metadata_path, "stackvars"@), text },
        ),
        None => None,
    }
}

/// The report of a phase that returned `error`: its message goes to the
/// error channel, behind the assertion marker where `is_assert` holds, and
/// its stack trace, if it has one, to the stack-trace file.
pub open spec fn phase_failed_report(
    md: MetadataView,
    error: StageErrorView,
    is_assert: bool,
) -> RunReportView {
    RunReportView {
        exit_code: 1,
        fault: Some(FaultKind::PhaseExecution),
        error: Some(error),
        error_channel: Some(error_text(error.message, is_assert)),
        stackvars: trace_file(md.metadata_path, error),
        log: None,
    }
}

/// The report for what a phase returned.
pub open spec fn concluded_report(
    md: MetadataView,
    result: Result<(), StageErrorView>,
    rule: Set<ErrorClass>,
) -> RunReportView {
    match result {
        Ok(_) => success_report(),
        Err(error) => phase_failed_report(md, error, rule.contains(error.class)),
    }
}

/// The message for a panic: what was said, where, and the stack trace.
pub open spec fn panic_message(
    payload: Seq<char>,
    location: Option<(Seq<char>, int)>,
    backtrace: Seq<char>,
) -> Seq<char> {
    match location {
        Some((file, line)) => "stage failed unexpectedly: '"@ + payload + "' "@ + file + ":"@
            + decimal(line) + ":\n"@ + backtrace,
        None => "stage failed unexpectedly: '"@ + payload + "':\n"@ + backtrace,
    }
}

/// The report of a phase that panicked: the message goes to the log and to
/// the error channel, never as an assertion, and the stack trace to the
/// stack-trace file.
pub open spec fn panicked_report(
    md: MetadataView,
    payload: Seq<char>,
    location: Option<(Seq<char>, int)>,
    backtrace: Seq<char>,
) -> RunReportView {
    let message = panic_message(payload, location, backtrace);
    RunReportView {
        exit_code: 1,
        fault: Some(FaultKind::Panic),
        error: Some(
            StageErrorView { message, backtrace: Some(backtrace), class: ErrorClass::Other },
        ),
        error_channel: Some(message),
        stackvars: Some(
            SideFileView { path: metadata_file(md.metadata_path, "stackvars"@), text: backtrace },
        ),
        log: Some(message),
    }
}

/// The view of what a phase returned.
pub open spec fn result_view(result: Result<(), StageError>) -> Result<(), StageErrorView> {
    match result {
        Ok(_) => Ok(()),
        Err(e) => Err(e@),
    }
}

/// What running the phase `phase` of `stage` may give: a result of the
/// method of the stage that stands for this phase, called with `md`.
pub open spec fn phase_result<T: RawMartianStage>(
    stage: &T,
    phase: StageType,
    md: &Metadata,
    result: Result<(), StageError>,
) -> bool {
    match phase {
        StageType::Split => call_ensures(T::split, (stage, md), result),
        StageType::Main => call_ensures(T::main, (stage, md), result),
        StageType::Join => call_ensures(T::join, (stage, md), result),
    }
}

/// The phase that `md` names was run on `stage`, and `report` is the report
/// for what it returned under `rule`: the method of that phase was called
/// with metadata of the view `md`, and the report is concluded from a
/// result of that call.
pub open spec fn phase_ran<T: RawMartianStage>(
    stage: T,
    md: MetadataView,
    rule: Set<ErrorClass>,
    report: RunReportView,
) -> bool {
    exists|given: Metadata, result: Result<(), StageError>|
        given@ == md && #[trigger] phase_result(&stage, md.stage_type, &given, result)
            && concluded_report(md, result_view(result), rule) == report
}

/// What a run on the command line `args` may report, with the stages of
/// `stage_map` registered and `rule` in force: the fault of a command line
/// that describes no phase; else that of a stage that is not registered;
/// else the report for what the stage registered under the name returned
/// from the phase that the command line names.
pub open spec fn run_outcome<T: RawMartianStage>(
    args: Seq<Seq<char>>,
    stage_map: StageRegistry<T>,
    rule: Set<ErrorClass>,
    report: RunReportView,
) -> bool {
    match initialize_spec(args) {
        Err(error) => report == init_failed_report(error),
        Ok(md) => if !stage_map.contains(md.stage_name) {
            report == unknown_stage_report(md.stage_name)
        } else {
            phase_ran(stage_map.stage_of(md.stage_name), md, rule, report)
        },
    }
}

/// Whatever ends a run, its report says the same in kind: exit code 0, no
/// error and nothing for the error channel after success; exit code 1, the
/// error and one text for the error channel after a fault of any kind.
pub proof fn lemma_every_report_converges(
    md: MetadataView,
    error: StageErrorView,
    is_assert: bool,
    name: Seq<char>,
    payload: Seq<char>,
    location: Option<(Seq<char>, int)>,
    backtrace: Seq<char>,
)
    ensures
        success_report().converges(),
        init_failed_report(error).converges(),
        unknown_stage_report(name).converges(),
        phase_failed_report(md, error, is_assert).converges(),
        panicked_report(md, payload, location, backtrace).converges(),
        success_report().exit_code == 0,
        init_failed_report(error).exit_code == 1,
        unknown_stage_report(name).exit_code == 1,
        phase_failed_report(md, error, is_assert).exit_code == 1,
        panicked_report(md, payload, location, backtrace).exit_code == 1,
        panicked_report(md, payload, location, backtrace).stackvars == Some(
            SideFileView { path: metadata_file(md.metadata_path, "stackvars"@), text: backtrace },
        ),
{
}

/// Every report that [`run_outcome`] admits has exit code 0 and nothing
/// for the error channel, or exit code 1 and exactly one text for it.
pub proof fn lemma_outcomes_converge<T: RawMartianStage>(
    args: Seq<Seq<char>>,
    stage_map: StageRegistry<T>,
    rule: Set<ErrorClass>,
    report: RunReportView,
)
    requires
        run_outcome(args, stage_map, rule, report),
    ensures
        report.converges(),
        report.exit_code == 0 || report.exit_code == 1,
        report.exit_code == 1 <==> report.error_channel is Some,
        report.exit_code == 1 <==> report.error is Some,
{
}

/// A run that asks for a stage that is not registered ends with exit code
/// 1 and a message that ends with the requested name.
pub proof fn lemma_unknown_stage_is_named<T: RawMartianStage>(
    args: Seq<Seq<char>>,
    stage_map: StageRegistry<T>,
    rule: Set<ErrorClass>,
    report: RunReportView,
)
    requires
        run_outcome(args, stage_map, rule, report),
        initialize_spec(args) is Ok,
        !stage_map.contains(initialize_spec(args)->Ok_0.stage_name),
    ensures
        report.exit_code == 1,
        report.fault == Some(FaultKind::UnknownStage),
        report.error_channel is Some,
        crate::text::ends_with(
            report.error_channel->Some_0,
            initialize_spec(args)->Ok_0.stage_name,
        ),
{
    let name = initialize_spec(args)->Ok_0.stage_name;
    let text = unknown_stage_message(name);
    assert(text.subrange(text.len() - name.len(), text.len() as int) =~= name);
}

/// The report of a run that succeeded.
pub fn succeeded() -> (report: RunReport)
    ensures
        report@ == success_report(),
{
    RunReport {
        exit_code: 0,
        fault: None,
        error: None,
        error_channel: None,
        stackvars: None,
        log: None,
    }
}

/// The report of a run that failed before a stage was looked up.
pub fn initialization_failed(error: StageError) -> (report: RunReport)
    ensures
        report@ == init_failed_report(error@),
{
    let text = error.message.clone();
    RunReport {
        exit_code: 1,
        fault: Some(FaultKind::Initialization),
        error: Some(error),
        error_channel: Some(text),
        stackvars: None,
        log: None,
    }
}

/// The report of a run that asked for the stage `name`, which is not
/// registered.
pub fn unknown_stage(name: &str) -> (report: RunReport)
    ensures
        report@ == unknown_stage_report(name@),
{
    let mut message = String::from_str("Couldn't find requested Martian stage: ");
    message.append(name);
    let text = message.clone();
    RunReport {
        exit_code: 1,
        fault: Some(FaultKind::UnknownStage),
        error: Some(StageError { message, backtrace: None, class: ErrorClass::Configuration }),
        error_channel: Some(text),
        stackvars: None,
        log: None,
    }
}

/// The report of a phase that returned `e`.
pub fn report_error(md: &Metadata, e: &StageError, is_assert: bool) -> (report: RunReport)
    ensures
        report@ == phase_failed_report(md@, e@, is_assert),
{
    let stackvars = match &e.backtrace {
        Some(text) => Some(SideFile { path: md.stackvars_path(), text: text.clone() }),
        None => None,
    };
    RunReport {
        exit_code: 1,
        fault: Some(FaultKind::PhaseExecution),
        error: Some(e.duplicate()),
        error_channel: Some(format_error(e.message.as_str(), is_assert)),
        stackvars,
        log: None,
    }
}

/// The report for what a phase returned: success, or the failure with the
/// error as `rule` classifies it.
pub fn conclude(md: &Metadata, result: Result<(), StageError>, rule: &AssertRule) -> (report:
    RunReport)
    ensures
        report@ == concluded_report(md@, result_view(result), rule@),
{
    match result {
        Ok(()) => succeeded(),
        Err(e) => {
            let is_assert = rule.applies(&e);
            report_error(md, &e, is_assert)
        },
    }
}

/// The report of a phase that panicked with the message `payload` at
/// `location`, with `backtrace` the stack trace taken at the panic.
pub fn panic_report(
    md: &Metadata,
    payload: &str,
    location: Option<&PanicLocation>,
    backtrace: &str,
) -> (report: RunReport)
    ensures
        report@ == panicked_report(
            md@,
            payload@,
            match location {
                Some(l) => Some((l.file@, l.line as int)),
                None => None,
            },
            backtrace@,
        ),
        report@.converges(),
        report@.stackvars is Some,
        report@.stackvars->Some_0.text == backtrace@,
{
    let mut message = String::from_str("stage failed unexpectedly: '");
    message.append(payload);
    match location {
        Some(l) => {
            message.append("' ");
            message.append(l.file.as_str());
            message.append(":");
            push_decimal(&mut message, l.line as i64);
            message.append(":\n");
        },
        None => {
            message.append("':\n");
        },
    }
    message.append(backtrace);
    let channel = message.clone();
    let log = message.clone();
    RunReport {
        exit_code: 1,
        fault: Some(FaultKind::Panic),
        error: Some(
            StageError {
                message,
                backtrace: Some(String::from_str(backtrace)),
                class: ErrorClass::Other,
            },
        ),
        error_channel: Some(channel),
        stackvars: Some(SideFile { path: md.stackvars_path(), text: String::from_str(backtrace) }),
        log: Some(log),
    }
}

/// Runs the phase of `stage` that the metadata names, and no other: what
/// comes back is what the method of that phase returned for `md`.
pub fn invoke<T: RawMartianStage>(stage: &T, md: &Metadata) -> (result: Result<(), StageError>)
    ensures
        phase_result(stage, md.stage_type, md, result),
{
    match md.stage_type {
        StageType::Split => stage.split(md),
        StageType::Main => stage.main(md),
        StageType::Join => stage.join(md),
    }
}

/// What looking a stage up comes to: nothing where it is registered, else
/// the report that ends the run.
pub open spec fn dispatch_fault(md: MetadataView, known: Seq<Seq<char>>) -> Option<
    RunReportView,
> {
    if known.contains(md.stage_name) {
        None
    } else {
        Some(unknown_stage_report(md.stage_name))
    }
}

/// A phase that is ready to run: the command line was read and the stage
/// found.
pub struct Dispatched<'a, T: RawMartianStage> {
    md: Metadata,
    stage: &'a T,
    is_error_assert: &'a AssertRule,
}

impl<'a, T: RawMartianStage> Dispatched<'a, T> {
    /// The metadata of the invocation, as it was handed in.
    pub closed spec fn given(&self) -> Metadata {
        self.md
    }

    /// The stage that was found.
    pub closed spec fn stage(&self) -> T {
        *self.stage
    }

    /// The metadata of the invocation.
    pub open spec fn metadata_view(&self) -> MetadataView {
        self.given()@
    }

    /// The classes of error that are reported as assertions.
    pub closed spec fn assert_classes(&self) -> Set<ErrorClass> {
        self.is_error_assert@
    }

    /// `result` is a result of the phase that the metadata names, run on
    /// the stage that was found, with the metadata of the invocation.
    pub open spec fn ran(&self, result: Result<(), StageError>) -> bool {
        phase_result(&self.stage(), self.given().stage_type, &self.given(), result)
    }

    /// The metadata of the invocation.
    pub fn metadata(&self) -> (md: &Metadata)
        ensures
            *md == self.given(),
            md@ == self.metadata_view(),
    {
        &self.md
    }

    /// Runs the phase that the metadata names, and no other, on the stage
    /// that was found, and reports: the report is the one that
    /// [`conclude`] gives for what the phase returned.
    pub fn run(self) -> (report: RunReport)
        ensures
            exists|result: Result<(), StageError>| #[trigger]
                self.ran(result) && concluded_report(
                    self.metadata_view(),
                    result_view(result),
                    self.assert_classes(),
                ) == report@,
            report@.converges(),
            report@.fault is None || report@.fault == Some(FaultKind::PhaseExecution),
    {
        let result = invoke(self.stage, &self.md);
        let ghost returned = result;
        let report = conclude(&self.md, result, self.is_error_assert);
        assert(self.ran(returned) && concluded_report(
            self.metadata_view(),
            result_view(returned),
            self.assert_classes(),
        ) == report@);
        report
    }
}

/// Looks up the stage that `md` names among `stage_map`: a phase that is
/// ready to run on the stage registered under that name, with `md` as it
/// is, or the report that ends the run where no such stage is registered.
pub fn dispatch<'a, T: RawMartianStage>(
    md: Metadata,
    stage_map: &'a StageRegistry<T>,
    is_error_assert: &'a AssertRule,
) -> (r: Result<Dispatched<'a, T>, RunReport>)
    requires
        stage_map.wf(),
    ensures
        match r {
            Ok(ready) => {
                &&& dispatch_fault(md@, stage_map.names()) is None
                &&& ready.given() == md
                &&& ready.stage() == stage_map.stage_of(md@.stage_name)
                &&& ready.assert_classes() == is_error_assert@
            },
            Err(report) => dispatch_fault(md@, stage_map.names()) == Some(report@),
        },
{
    match stage_map.lookup(md.stage_name.as_str()) {
        Some(stage) => Ok(Dispatched { md, stage, is_error_assert }),
        None => Err(unknown_stage(md.stage_name.as_str())),
    }
}

/// Runs one phase from start to end: reads the command line, looks the
/// stage up, runs the phase that was asked for, and reports.
///
/// No stage is run where the command line describes no phase or names a
/// stage that is not registered. What a stage returns is its own matter:
/// whatever it is, the report is the one that [`conclude`] gives for it.
pub fn martian_entry_point<T: RawMartianStage>(
    args: Vec<String>,
    stage_map: &StageRegistry<T>,
    is_error_assert: &AssertRule,
) -> (report: RunReport)
    requires
        stage_map.wf(),
    ensures
        run_outcome(words(args@), *stage_map, is_error_assert@, report@),
        report@.converges(),
{
    let md = match initialize(args) {
        Ok(md) => md,
        Err(e) => {
            return initialization_failed(e);
        },
    };
    let ghost given = md;
    let ready = match dispatch(md, stage_map, is_error_assert) {
        Ok(ready) => ready,
        Err(report) => {
            return report;
        },
    };
    let report = ready.run();
    proof {
        let result = choose|result: Result<(), StageError>| #[trigger]
            ready.ran(result) && concluded_report(
                ready.metadata_view(),
                result_view(result),
                ready.assert_classes(),
            ) == report@;
        assert(phase_result(
            &stage_map.stage_of(given@.stage_name),
            given@.stage_type,
            &given,
            result,
        ));
        assert(phase_ran(
            stage_map.stage_of(given@.stage_name),
            given@,
            is_error_assert@,
            report@,
        ));
    }
    report
}

/// What a binary needs to run its stages: the stages by name, the level of
/// logging, and the rule that tells assertions from other errors.
pub struct MartianAdapter<T: RawMartianStage> {
    stage_map: StageRegistry<T>,
    log_level: LevelFilter,
    is_error_assert: AssertRule,
}

impl<T: RawMartianStage> MartianAdapter<T> {
    #[verifier::type_invariant]
    spec fn inv(self) -> bool {
        self.stage_map.wf()
    }

    /// The stages that this adapter can run, by name.
    pub closed spec fn registry(&self) -> StageRegistry<T> {
        self.stage_map
    }

    /// The names of the stages that this adapter can run.
    pub open spec fn stage_names(&self) -> Seq<Seq<char>> {
        self.registry().names()
    }

    /// The level of logging.
    pub closed spec fn level(&self) -> LevelFilter {
        self.log_level
    }

    /// The classes of error that are reported as assertions.
    pub closed spec fn assert_classes(&self) -> Set<ErrorClass> {
        self.is_error_assert@
    }

    /// An adapter for the given stages, which logs warnings and errors and
    /// reports no error as an assertion.
    pub fn new(stage_map: StageRegistry<T>) -> (adapter: MartianAdapter<T>)
        requires
            stage_map.wf(),
        ensures
            adapter.registry() == stage_map,
            adapter.level() == LevelFilter::Warn,
            adapter.assert_classes() == Set::<ErrorClass>::empty(),
    {
        MartianAdapter {
            stage_map,
            log_level: LevelFilter::Warn,
            is_error_assert: AssertRule::never(),
        }
    }

    /// The same adapter, logging from `log_level` upwards.
    pub fn log_level(self, log_level: LevelFilter) -> (adapter: MartianAdapter<T>)
        ensures
            adapter.registry() == self.registry(),
            adapter.level() == log_level,
            adapter.assert_classes() == self.assert_classes(),
    {
        proof {
            use_type_invariant(&self);
        }
        MartianAdapter {
            stage_map: self.stage_map,
            log_level,
            is_error_assert: self.is_error_assert,
        }
    }

    /// The same adapter, reporting as assertions the errors that
    /// `predicate` picks.
    pub fn assert_if(self, predicate: AssertRule) -> (adapter: MartianAdapter<T>)
        ensures
            adapter.registry() == self.registry(),
            adapter.level() == self.level(),
            adapter.assert_classes() == predicate@,
    {
        proof {
            use_type_invariant(&self);
        }
        MartianAdapter {
            stage_map: self.stage_map,
            log_level: self.log_level,
            is_error_assert: predicate,
        }
    }

    /// The level of logging that was asked for.
    pub fn get_log_level(&self) -> (level: LevelFilter)
        ensures
            level == self.level(),
    {
        self.log_level
    }

    /// Looks up the stage that `md` names: a phase that is ready to run,
    /// or the report that ends the run where no such stage is registered.
    pub fn dispatch(&self, md: Metadata) -> (r: Result<Dispatched<'_, T>, RunReport>)
        ensures
            match r {
                Ok(ready) => {
                    &&& dispatch_fault(md@, self.stage_names()) is None
                    &&& ready.given() == md
                    &&& ready.stage() == self.registry().stage_of(md@.stage_name)
                    &&& ready.assert_classes() == self.assert_classes()
                },
                Err(report) => dispatch_fault(md@, self.stage_names()) == Some(report@),
            },
    {
        proof {
            use_type_invariant(self);
        }
        dispatch(md, &self.stage_map, &self.is_error_assert)
    }

    /// Runs the phase that `args` describes and reports in full.
    pub fn run_report(&self, args: Vec<String>) -> (report: RunReport)
        ensures
            run_outcome(words(args@), self.registry(), self.assert_classes(), report@),
            report@.converges(),
    {
        proof {
            use_type_invariant(self);
        }
        martian_entry_point(args, &self.stage_map, &self.is_error_assert)
    }

    /// Runs the phase that `args` describes and returns the exit code that
    /// the process is to end with: 0 after success, 1 after any fault.
    #[must_use]
    pub fn run(self, args: Vec<String>) -> (code: i32)
        ensures
            exists|report: RunReportView|
                #[trigger] run_outcome(
                    words(args@),
                    self.registry(),
                    self.assert_classes(),
                    report,
                ) && report.exit_code == code,
            code == 0 || code == 1,
    {
        let (code, _) = self.run_get_error(args);
        code
    }

    /// Like [`MartianAdapter::run`], and returns the error behind the
    /// fault as well, if there was one.
    #[must_use]
    pub fn run_get_error(self, args: Vec<String>) -> (r: (i32, Option<StageError>))
        ensures
            exists|report: RunReportView|
                #[trigger] run_outcome(
                    words(args@),
                    self.registry(),
                    self.assert_classes(),
                    report,
                ) && report.exit_code == r.0 && report.error == opt_error(r.1),
            r.0 == 0 || r.0 == 1,
            r.0 == 1 <==> r.1 is Some,
    {
        let report = self.run_report(args);
        (report.exit_code, report.error)
    }
}

} // verus!
