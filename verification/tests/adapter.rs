use martian::{
    conclude, dispatch, initialization_error, initialization_failed, initialize, invoke,
    martian_entry_point, panic_report, report_error, AssertRule, ErrorClass, FaultKind,
    LevelFilter, MartianAdapter, Metadata, PanicLocation, RawMartianStage, StageError,
    StageRegistry, StageType,
};
use std::cell::RefCell;
use std::rc::Rc;

/// A stage that notes which phases were run and fails where it is told to.
struct Probe {
    calls: Rc<RefCell<Vec<String>>>,
    fail: Option<ErrorClass>,
    backtrace: bool,
}

impl Probe {
    fn ok(calls: &Rc<RefCell<Vec<String>>>) -> Probe {
        Probe { calls: calls.clone(), fail: None, backtrace: false }
    }

    fn failing(calls: &Rc<RefCell<Vec<String>>>, class: ErrorClass, backtrace: bool) -> Probe {
        Probe { calls: calls.clone(), fail: Some(class), backtrace }
    }

    fn note(&self, phase: &str, md: &Metadata) -> Result<(), StageError> {
        self.calls.borrow_mut().push(format!("{}:{}", phase, md.stage_name));
        match self.fail {
            None => Ok(()),
            Some(class) => {
                let error = StageError::new("out of luck", class);
                Err(if self.backtrace { error.with_backtrace("frame 0\nframe 1") } else { error })
            }
        }
    }
}

impl RawMartianStage for Probe {
    fn split(&self, md: &Metadata) -> Result<(), StageError> {
        self.note("split", md)
    }
    fn main(&self, md: &Metadata) -> Result<(), StageError> {
        self.note("main", md)
    }
    fn join(&self, md: &Metadata) -> Result<(), StageError> {
        self.note("join", md)
    }
}

fn args(stage: &str, phase: &str) -> Vec<String> {
    vec![stage, phase, "/run/meta", "/run/files", "run_file"].into_iter().map(String::from).collect()
}

fn registry(stages: Vec<(&str, Probe)>) -> StageRegistry<Probe> {
    let mut registry = StageRegistry::new();
    for (name, stage) in stages {
        registry.register(name.to_string(), stage);
    }
    registry
}

fn calls() -> Rc<RefCell<Vec<String>>> {
    Rc::new(RefCell::new(Vec::new()))
}

#[test]
fn each_phase_runs_its_own_method_once() {
    for phase in ["split", "main", "join"] {
        let seen = calls();
        let adapter = MartianAdapter::new(registry(vec![("sum", Probe::ok(&seen))]));
        let report = adapter.run_report(args("sum", phase));
        assert_eq!(report.exit_code, 0);
        assert_eq!(report.fault, None);
        assert!(report.error.is_none());
        assert!(report.error_channel.is_none());
        assert!(report.stackvars.is_none());
        assert!(report.log.is_none());
        assert_eq!(*seen.borrow(), vec![format!("{}:sum", phase)]);
    }
}

#[test]
fn run_returns_the_exit_code() {
    let seen = calls();
    assert_eq!(MartianAdapter::new(registry(vec![("sum", Probe::ok(&seen))])).run(args("sum", "main")), 0);
    let failing = Probe::failing(&seen, ErrorClass::Other, false);
    assert_eq!(MartianAdapter::new(registry(vec![("sum", failing)])).run(args("sum", "main")), 1);
    assert_eq!(MartianAdapter::new(registry(vec![])).run(args("sum", "main")), 1);
    assert_eq!(MartianAdapter::<Probe>::new(registry(vec![])).run(vec![]), 1);
}

#[test]
fn unknown_stage_is_named_and_nothing_runs() {
    let seen = calls();
    let adapter = MartianAdapter::new(registry(vec![("sum", Probe::ok(&seen))]));
    let (code, error) = adapter.run_get_error(args("product", "main"));
    assert_eq!(code, 1);
    assert_eq!(error.unwrap().to_string(), "Couldn't find requested Martian stage: product");
    assert!(seen.borrow().is_empty());

    let adapter = MartianAdapter::new(registry(vec![("sum", Probe::ok(&seen))]));
    let report = adapter.run_report(args("product", "main"));
    assert_eq!(report.exit_code, 1);
    assert_eq!(report.fault, Some(FaultKind::UnknownStage));
    assert_eq!(
        report.error_channel.as_deref(),
        Some("Couldn't find requested Martian stage: product")
    );
    assert!(report.stackvars.is_none());
}

#[test]
fn bad_command_line_fails_before_any_stage() {
    let seen = calls();
    let adapter = MartianAdapter::new(registry(vec![("sum", Probe::ok(&seen))]));
    let short: Vec<String> = vec!["sum".to_string(), "main".to_string()];
    let report = adapter.run_report(short);
    assert_eq!(report.exit_code, 1);
    assert_eq!(report.fault, Some(FaultKind::Initialization));
    let text = report.error_channel.unwrap();
    assert!(text.starts_with("IO Error initializing stage: expected the stage name"));
    assert_eq!(report.error.unwrap().message, text);

    let report = adapter.run_report(args("sum", "chunk"));
    assert_eq!(report.exit_code, 1);
    assert_eq!(report.fault, Some(FaultKind::Initialization));
    assert_eq!(
        report.error_channel.as_deref(),
        Some("IO Error initializing stage: unrecognized stage type: chunk")
    );
    // A bad stage type is found before the stage is looked up.
    let report = adapter.run_report(args("product", "chunk"));
    assert_eq!(report.fault, Some(FaultKind::Initialization));
    assert!(seen.borrow().is_empty());
}

#[test]
fn failed_phase_is_reported_once() {
    let seen = calls();
    let failing = Probe::failing(&seen, ErrorClass::InvalidInput, true);
    let adapter = MartianAdapter::new(registry(vec![("sum", failing)]));
    let report = adapter.run_report(args("sum", "join"));
    assert_eq!(report.exit_code, 1);
    assert_eq!(report.fault, Some(FaultKind::PhaseExecution));
    assert_eq!(report.error_channel.as_deref(), Some("out of luck"));
    let side = report.stackvars.unwrap();
    assert_eq!(side.path, "/run/meta/_stackvars");
    assert_eq!(side.text, "frame 0\nframe 1");
    let error = report.error.unwrap();
    assert_eq!(error.class, ErrorClass::InvalidInput);
    assert_eq!(error.backtrace.as_deref(), Some("frame 0\nframe 1"));
    assert_eq!(*seen.borrow(), vec!["join:sum".to_string()]);
}

#[test]
fn assert_rule_marks_the_errors_it_picks() {
    let seen = calls();
    let build = |class: ErrorClass| {
        MartianAdapter::new(registry(vec![("sum", Probe::failing(&seen, class, false))]))
            .log_level(LevelFilter::Debug)
            .assert_if(AssertRule::on(vec![ErrorClass::Configuration, ErrorClass::InvalidInput]))
    };
    let report = build(ErrorClass::Configuration).run_report(args("sum", "main"));
    assert_eq!(report.error_channel.as_deref(), Some("ASSERT:out of luck"));
    assert_eq!(report.exit_code, 1);
    assert!(report.stackvars.is_none());
    let report = build(ErrorClass::Resource).run_report(args("sum", "main"));
    assert_eq!(report.error_channel.as_deref(), Some("out of luck"));
    assert_eq!(build(ErrorClass::Io).get_log_level(), LevelFilter::Debug);
    // Faults that arise before a stage runs are never assertions.
    let report = build(ErrorClass::Configuration).run_report(args("nope", "main"));
    assert_eq!(
        report.error_channel.as_deref(),
        Some("Couldn't find requested Martian stage: nope")
    );
}

#[test]
fn new_adapter_warns_and_never_asserts() {
    let seen = calls();
    let adapter =
        MartianAdapter::new(registry(vec![("sum", Probe::failing(&seen, ErrorClass::Configuration, false))]));
    assert_eq!(adapter.get_log_level(), LevelFilter::Warn);
    assert_eq!(adapter.run_report(args("sum", "main")).error_channel.as_deref(), Some("out of luck"));
}

#[test]
fn entry_point_takes_the_registry_and_the_rule() {
    let seen = calls();
    let stages = registry(vec![("a", Probe::ok(&seen)), ("b", Probe::failing(&seen, ErrorClass::Io, false))]);
    let rule = AssertRule::on(vec![ErrorClass::Io]);
    assert_eq!(martian_entry_point(args("a", "split"), &stages, &rule).exit_code, 0);
    let report = martian_entry_point(args("b", "split"), &stages, &rule);
    assert_eq!(report.error_channel.as_deref(), Some("ASSERT:out of luck"));
    assert_eq!(*seen.borrow(), vec!["split:a".to_string(), "split:b".to_string()]);
}

#[test]
fn registry_keeps_one_stage_for_a_name() {
    let seen = calls();
    let mut stages = StageRegistry::new();
    assert_eq!(stages.len(), 0);
    stages.register("sum".to_string(), Probe::failing(&seen, ErrorClass::Io, false));
    stages.register("other".to_string(), Probe::ok(&seen));
    stages.register("sum".to_string(), Probe::ok(&seen));
    assert_eq!(stages.len(), 2);
    assert!(stages.lookup("sum").unwrap().fail.is_none());
    assert!(stages.lookup("other").is_some());
    assert!(stages.lookup("Sum").is_none());
    assert!(stages.lookup("").is_none());
}

#[test]
fn initialize_reads_the_command_line() {
    let mut line = args("sum", "split");
    line.push("extra".to_string());
    let md = initialize(line).unwrap();
    assert_eq!(md.stage_name, "sum");
    assert_eq!(md.stage_type, StageType::Split);
    assert_eq!(md.metadata_path, "/run/meta");
    assert_eq!(md.files_path, "/run/files");
    assert_eq!(md.run_file, "run_file");
    assert_eq!(initialize(args("sum", "main")).unwrap().stage_type, StageType::Main);
    assert_eq!(initialize(args("sum", "join")).unwrap().stage_type, StageType::Join);
    let error = initialize(args("sum", "Main")).unwrap_err();
    assert_eq!(error.message, "IO Error initializing stage: unrecognized stage type: Main");
    assert_eq!(error.class, ErrorClass::Configuration);
    assert!(initialize(args("sum", "main")[..4].to_vec()).is_err());
    assert!(initialize(vec![]).is_err());
}

#[test]
fn metadata_files_stand_below_the_metadata_path() {
    let md = initialize(args("sum", "main")).unwrap();
    assert_eq!(md.make_path("args"), "/run/meta/_args");
    assert_eq!(md.make_path("jobinfo"), "/run/meta/_jobinfo");
    assert_eq!(md.stackvars_path(), "/run/meta/_stackvars");
    assert_eq!(md.args_path(), "/run/meta/_args");
    assert_eq!(md.outs_path(), "/run/meta/_outs");
    assert_eq!(md.jobinfo_path(), "/run/meta/_jobinfo");
    assert_eq!(md.log_path(), "/run/meta/_log");
    assert_eq!(md.progress_path(), "/run/meta/_progress");
    assert_eq!(md.errors_path(), "/run/meta/_errors");
    let mut rooted = md.duplicate();
    rooted.metadata_path = "/".to_string();
    assert_eq!(rooted.make_path("outs"), "/_outs");
    rooted.metadata_path = String::new();
    assert_eq!(rooted.make_path("log"), "_log");
    rooted.metadata_path = "meta/".to_string();
    assert_eq!(rooted.make_path("errors"), "meta/_errors");
    assert_eq!(StageType::parse("join"), Some(StageType::Join));
    assert_eq!(StageType::parse("joint"), None);
    assert_eq!(StageType::Split.name(), "split");
}

#[test]
fn failure_to_prepare_is_an_initialization_fault() {
    let report = initialization_failed(initialization_error("No such file or directory"));
    assert_eq!(report.exit_code, 1);
    assert_eq!(report.fault, Some(FaultKind::Initialization));
    assert_eq!(
        report.error_channel.as_deref(),
        Some("IO Error initializing stage: No such file or directory")
    );
    assert_eq!(report.error.unwrap().class, ErrorClass::Io);
}

#[test]
fn panic_is_reported_with_its_stack_trace() {
    let md = initialize(args("sum", "main")).unwrap();
    let location = PanicLocation { file: "src/stage.rs".to_string(), line: 42 };
    let report = panic_report(&md, "index out of bounds", Some(&location), "0: main\n1: start\n");
    let message = "stage failed unexpectedly: 'index out of bounds' src/stage.rs:42:\n0: main\n1: start\n";
    assert_eq!(report.exit_code, 1);
    assert_eq!(report.fault, Some(FaultKind::Panic));
    assert_eq!(report.error_channel.as_deref(), Some(message));
    assert_eq!(report.log.as_deref(), Some(message));
    let side = report.stackvars.unwrap();
    assert_eq!(side.path, "/run/meta/_stackvars");
    assert_eq!(side.text, "0: main\n1: start\n");
    assert!(!side.text.is_empty());
    let report = panic_report(&md, "Box<Any>", None, "trace");
    assert_eq!(
        report.error_channel.as_deref(),
        Some("stage failed unexpectedly: 'Box<Any>':\ntrace")
    );
}

#[test]
fn conclude_reports_what_the_phase_returned() {
    let md = initialize(args("sum", "main")).unwrap();
    let never = AssertRule::never();
    let always = AssertRule::on(vec![ErrorClass::Other]);
    assert_eq!(conclude(&md, Ok(()), &always).exit_code, 0);
    let error = || StageError::new("broken", ErrorClass::Other);
    assert_eq!(conclude(&md, Err(error()), &never).error_channel.as_deref(), Some("broken"));
    assert_eq!(conclude(&md, Err(error()), &always).error_channel.as_deref(), Some("ASSERT:broken"));
    assert!(always.applies(&error()));
    assert!(!never.applies(&error()));
    assert!(!always.applies(&StageError::new("x", ErrorClass::Io)));
    let report = report_error(&md, &error().with_backtrace("bt"), true);
    assert_eq!(report.error_channel.as_deref(), Some("ASSERT:broken"));
    assert_eq!(report.stackvars.unwrap().text, "bt");
    assert_eq!(report.fault, Some(FaultKind::PhaseExecution));
}

#[test]
fn invoke_runs_the_phase_of_the_metadata() {
    let seen = calls();
    let stage = Probe::ok(&seen);
    let mut md = initialize(args("sum", "main")).unwrap();
    assert!(invoke(&stage, &md).is_ok());
    md.stage_type = StageType::Join;
    assert!(invoke(&stage, &md).is_ok());
    assert_eq!(*seen.borrow(), vec!["main:sum".to_string(), "join:sum".to_string()]);
}

#[test]
fn dispatch_finds_the_stage_before_it_runs() {
    let seen = calls();
    let adapter = MartianAdapter::new(registry(vec![("sum", Probe::failing(&seen, ErrorClass::Io, true))]))
        .assert_if(AssertRule::on(vec![ErrorClass::Io]));
    let ready = adapter.dispatch(initialize(args("sum", "split")).unwrap()).ok().unwrap();
    assert_eq!(ready.metadata().stage_name, "sum");
    assert_eq!(ready.metadata().stackvars_path(), "/run/meta/_stackvars");
    assert!(seen.borrow().is_empty());
    let report = ready.run();
    assert_eq!(*seen.borrow(), vec!["split:sum".to_string()]);
    assert_eq!(report.exit_code, 1);
    assert_eq!(report.error_channel.as_deref(), Some("ASSERT:out of luck"));

    let report = adapter.dispatch(initialize(args("other", "split")).unwrap()).err().unwrap();
    assert_eq!(report.exit_code, 1);
    assert_eq!(report.fault, Some(FaultKind::UnknownStage));
    assert_eq!(
        report.error_channel.as_deref(),
        Some("Couldn't find requested Martian stage: other")
    );
    assert_eq!(*seen.borrow(), vec!["split:sum".to_string()]);

    let stages = registry(vec![("sum", Probe::ok(&seen))]);
    let never = AssertRule::never();
    let ready = dispatch(initialize(args("sum", "main")).unwrap(), &stages, &never).ok().unwrap();
    assert_eq!(ready.run().exit_code, 0);
}
