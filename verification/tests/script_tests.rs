use std::str::FromStr;
use win_event_engine::actions::{ActionError, ActionResult};
use win_event_engine::event::{Event, EventKind};
use win_event_engine::script::{
    event_table, globals_to_clear, globals_to_install, host_fields, is_path_allowed,
    resolve_path, sandbox_plan, sandbox_roots, table_shape, Answer,
    Feedback, SandboxStep, ScriptAction, ScriptErrorBehavior, ScriptOutcome, ScriptProbe, ScriptRun,
    TableKey, TableShape,
};

fn script() -> ScriptAction {
    ScriptAction::new(
        "/scripts/on_event.lua",
        "on_event",
        "function on_event(event) return {success = true} end".to_string(),
        100,
        &ScriptProbe::Valid,
    )
    .unwrap()
}

fn returned(success: Option<bool>, message: Option<&str>) -> ScriptOutcome {
    ScriptOutcome::Returned { success, message: message.map(|m| m.to_string()) }
}

#[test]
fn test_script_action_creation() {
    let action = ScriptAction::new(
        "/tmp/script.lua",
        "on_event",
        "\nfunction on_event(event)\n    return {success = true}\nend\n".to_string(),
        1,
        &ScriptProbe::Valid,
    );

    assert!(action.is_ok());
}

#[test]
fn a_returned_table_with_a_message_succeeds() {
    let action = script();
    let result = action.conclude(&returned(Some(true), Some("Processed")));
    assert!(result.is_ok());
    match result {
        Ok(ActionResult::Success { message }) => assert_eq!(message, Some("Processed".to_string())),
        _ => panic!("the script succeeded"),
    }
}

#[test]
fn script_creation_defaults_and_refusals() {
    let action = script();
    assert_eq!(action.timeout_ms, 30000);
    assert_eq!(action.on_error, ScriptErrorBehavior::Fail);
    assert_eq!(action.script_path, "/scripts/on_event.lua");
    assert_eq!(action.function_name, "on_event");
    assert_eq!(action.last_modified, 100);
    assert_eq!(action.description(), "Lua script: /scripts/on_event.lua::on_event");
    let tuned = script().with_timeout(5).with_error_behavior(ScriptErrorBehavior::Log);
    assert_eq!(tuned.timeout_ms, 5);
    assert_eq!(tuned.on_error, ScriptErrorBehavior::Log);

    let refuse = |probe: ScriptProbe| -> String {
        match ScriptAction::new("p", "f", String::new(), 0, &probe) {
            Err(ActionError::Configuration(m)) => m,
            _ => panic!("an invalid script is a configuration error"),
        }
    };
    assert_eq!(refuse(ScriptProbe::SyntaxError("near 'x'".to_string())), "Lua syntax error: near 'x'");
    assert_eq!(refuse(ScriptProbe::LookupFailed("nil".to_string())), "Function 'f' not found: nil");
    assert_eq!(refuse(ScriptProbe::NotAFunction), "'f' is not a function");
}

#[test]
fn script_failure_with_continue_is_a_success_that_tells() {
    let action = script().with_error_behavior(ScriptErrorBehavior::Continue);
    match action.conclude(&returned(Some(false), Some("x"))) {
        Ok(ActionResult::Success { message: Some(m) }) => {
            assert!(m.contains("x"));
            assert_eq!(m, "Failed but continuing: x");
        }
        _ => panic!("continue turns a failure into a success"),
    }
    match action.conclude(&ScriptOutcome::Raised("attempt to call nil".to_string())) {
        Ok(ActionResult::Success { message: Some(m) }) => {
            assert_eq!(m, "Error but continuing: Lua execution error: attempt to call nil")
        }
        _ => panic!("continue turns an error into a success"),
    }
}

#[test]
fn script_outcomes_under_fail() {
    let action = script();
    match action.conclude(&returned(Some(false), Some("x"))) {
        Err(ActionError::Execution(m)) => assert_eq!(m, "Script returned failure: x"),
        _ => panic!("fail"),
    }
    match action.conclude(&returned(Some(false), None)) {
        Err(ActionError::Execution(m)) => assert_eq!(m, "Script returned failure: "),
        _ => panic!("fail"),
    }
    assert!(matches!(
        action.conclude(&returned(None, None)),
        Ok(ActionResult::Success { message: None })
    ));
    assert!(matches!(
        action.conclude(&returned(Some(true), Some(""))),
        Ok(ActionResult::Success { message: None })
    ));
    match action.conclude(&ScriptOutcome::Raised("e".to_string())) {
        Err(ActionError::Execution(m)) => assert_eq!(m, "Lua execution error: e"),
        _ => panic!("raised"),
    }
    match action.conclude(&ScriptOutcome::LoadFailed("e".to_string())) {
        Err(ActionError::Execution(m)) => assert_eq!(m, "Failed to load script: e"),
        _ => panic!("load"),
    }
    match action.conclude(&ScriptOutcome::FunctionMissing("e".to_string())) {
        Err(ActionError::Execution(m)) => assert_eq!(m, "Function not found: e"),
        _ => panic!("missing"),
    }
    match action.conclude(&ScriptOutcome::SetupFailed("e".to_string())) {
        Err(ActionError::Execution(m)) => assert_eq!(m, "Lua error: e"),
        _ => panic!("setup"),
    }
}

#[test]
fn error_behaviour_names() {
    assert_eq!(ScriptErrorBehavior::default(), ScriptErrorBehavior::Fail);
    assert_eq!(ScriptErrorBehavior::from_str("fail"), Ok(ScriptErrorBehavior::Fail));
    assert_eq!(ScriptErrorBehavior::from_str("Continue"), Ok(ScriptErrorBehavior::Continue));
    assert_eq!(ScriptErrorBehavior::parse("LOG"), Ok(ScriptErrorBehavior::Log));
    assert_eq!(
        ScriptErrorBehavior::parse("Retry"),
        Err("Invalid error behavior: Retry".to_string())
    );
}

#[test]
fn the_sandbox_clears_before_it_installs_and_loads_last() {
    let plan = sandbox_plan();
    let mut expected: Vec<SandboxStep> = Vec::new();
    for name in ["dofile", "loadfile", "load", "require", "io", "os", "debug"] {
        expected.push(SandboxStep::Clear(name.to_string()));
    }
    for name in ["log", "exec", "http", "json", "fs", "os"] {
        expected.push(SandboxStep::Install(name.to_string()));
    }
    expected.push(SandboxStep::Load);
    expected.push(SandboxStep::Call);
    assert_eq!(plan, expected);
    let load = plan.iter().position(|s| *s == SandboxStep::Load).unwrap();
    for name in globals_to_clear() {
        let cleared = plan.iter().position(|s| *s == SandboxStep::Clear(name.clone())).unwrap();
        assert!(cleared < load);
        let installed = plan.iter().position(|s| *s == SandboxStep::Install(name.clone()));
        assert_eq!(installed.is_some(), name == "os");
    }
    assert_eq!(globals_to_install().len(), 6);
}

#[test]
fn a_run_hands_out_the_plan_step_by_step() {
    let action = script().with_error_behavior(ScriptErrorBehavior::Continue);
    let plan = sandbox_plan();
    let mut run = ScriptRun::begin();
    let mut feedback = Feedback::Start;
    for expected in plan.iter() {
        match run.advance(&action, &feedback) {
            Answer::Do(step) => assert_eq!(step, *expected),
            Answer::Finish(_) => panic!("the run ended early"),
        }
        feedback = Feedback::Done;
    }
    assert_eq!(run.position, 15);
    let end = run.advance(
        &action,
        &Feedback::Returned { success: Some(false), message: Some("x".to_string()) },
    );
    match end {
        Answer::Finish(Ok(ActionResult::Success { message: Some(m) })) => {
            assert_eq!(m, "Failed but continuing: x")
        }
        _ => panic!("the run ends with the script's answer"),
    }
    assert!(run.finished);
    assert!(matches!(
        run.advance(&action, &Feedback::Done),
        Answer::Finish(Err(ActionError::Execution(_)))
    ));
}

#[test]
fn a_failed_step_ends_the_run() {
    let action = script();
    let mut run = ScriptRun::begin();
    assert!(matches!(run.advance(&action, &Feedback::Start), Answer::Do(SandboxStep::Clear(_))));
    match run.advance(&action, &Feedback::Failed("no globals".to_string())) {
        Answer::Finish(Err(ActionError::Execution(m))) => assert_eq!(m, "Lua error: no globals"),
        _ => panic!("a failed step ends the run"),
    }

    let mut run = ScriptRun::begin();
    let mut feedback = Feedback::Start;
    for _ in 0..14 {
        assert!(matches!(run.advance(&action, &feedback), Answer::Do(_)));
        feedback = Feedback::Done;
    }
    match run.advance(&action, &Feedback::Failed("syntax".to_string())) {
        Answer::Finish(Err(ActionError::Execution(m))) => assert_eq!(m, "Failed to load script: syntax"),
        _ => panic!("a script that does not load ends the run"),
    }

    let mut run = ScriptRun::begin();
    match run.advance(&action, &Feedback::Done) {
        Answer::Finish(Err(ActionError::Execution(m))) => assert_eq!(m, "Script steps out of order"),
        _ => panic!("a run begins with a start"),
    }
    let mut run = ScriptRun::begin();
    assert!(matches!(run.advance(&action, &Feedback::Start), Answer::Do(_)));
    assert!(matches!(
        run.advance(&action, &Feedback::Missing("f".to_string())),
        Answer::Finish(Err(ActionError::Execution(_)))
    ));
}

#[test]
fn reload_takes_valid_sources_only() {
    let mut action = script();
    assert!(!action.needs_reload(None));
    assert!(!action.needs_reload(Some(100)));
    assert!(action.needs_reload(Some(101)));
    let refused = action.reload("broken(".to_string(), Some(200), &ScriptProbe::SyntaxError("eof".to_string()));
    assert!(matches!(refused, Err(ActionError::Configuration(_))));
    assert_eq!(action.last_modified, 100);
    assert!(action.content().starts_with("function on_event"));
    assert!(action.reload("function on_event() end".to_string(), Some(200), &ScriptProbe::Valid).is_ok());
    assert_eq!(action.last_modified, 200);
    assert_eq!(action.content(), "function on_event() end");
    assert!(action.reload("x".to_string(), None, &ScriptProbe::Valid).is_ok());
    assert_eq!(action.last_modified, 200);
}

#[test]
fn scripts_may_touch_paths_under_the_allowed_directories_only() {
    let allowed =
        vec!["/work".to_string(), "/tmp".to_string(), "/home/u/Documents".to_string()];
    let here = "/work";
    assert!(is_path_allowed("/tmp/a.txt", here, &allowed));
    assert!(is_path_allowed("/home/u/Documents/a/b", here, &allowed));
    assert!(is_path_allowed("/tmp", here, &allowed));
    assert!(is_path_allowed("relative/file.txt", here, &allowed));
    assert!(is_path_allowed("./a/../b.txt", here, &allowed));
    assert!(is_path_allowed("../tmp/x", here, &allowed));
    assert!(is_path_allowed("/etc/../tmp/./x", here, &allowed));
    assert!(!is_path_allowed("/etc/passwd", here, &allowed));
    assert!(!is_path_allowed("/tmp/../etc/passwd", here, &allowed));
    assert!(!is_path_allowed("../../etc/passwd", here, &allowed));
    assert!(!is_path_allowed("..", here, &allowed));
    assert!(!is_path_allowed("/tmpfile", here, &allowed));
    assert!(!is_path_allowed("/home/u", here, &allowed));
    assert!(!is_path_allowed("/tmp/../../..", here, &allowed));
    assert!(!is_path_allowed("/etc/passwd", here, &vec![]));
    assert!(!is_path_allowed("relative/file.txt", "/elsewhere", &allowed));
    assert!(!is_path_allowed("relative/file.txt", "", &allowed));
}

#[test]
fn the_allowed_directories_come_from_the_environment() {
    let roots = sandbox_roots(Some("/work"), Some("/tmp"), Some("/home/u"));
    assert_eq!(roots, vec!["/work", "/tmp", "/home/u/Documents"]);
    assert!(is_path_allowed("/tmp/a.txt", "/work", &roots));
    assert!(!is_path_allowed("/etc/passwd", "/work", &roots));
    assert!(!is_path_allowed("/tmp/../etc/passwd", "/work", &roots));
    assert!(!is_path_allowed("../../etc/passwd", "/work", &roots));
    assert!(!is_path_allowed("/home/u/secret", "/work", &roots));
    assert!(is_path_allowed("notes.txt", "/work", &roots));
    assert_eq!(sandbox_roots(None, Some("/tmp"), None), vec!["/tmp"]);
    assert_eq!(sandbox_roots(None, None, None), Vec::<String>::new());
    assert_eq!(sandbox_roots(Some("/w"), None, Some("/h/")), vec!["/w", "/h/Documents"]);
}

#[test]
fn paths_are_resolved_against_the_current_directory() {
    assert_eq!(resolve_path("/tmp/a.txt", "/work"), "/tmp/a.txt");
    assert_eq!(resolve_path("a.txt", "/work"), "/work/a.txt");
    assert_eq!(resolve_path("./a//b/", "/work/"), "/work/a/b");
    assert_eq!(resolve_path("../../etc/passwd", "/work"), "/etc/passwd");
    assert_eq!(resolve_path("/tmp/../etc/passwd", "/work"), "/etc/passwd");
    assert_eq!(resolve_path("/../..", "/work"), "/");
    assert_eq!(resolve_path("a/../../..", "/work/deep"), "/");
    assert_eq!(resolve_path("..", "/work/deep"), "/work");
    assert_eq!(resolve_path("../x", "rel"), "x");
    assert_eq!(resolve_path("../../x", "rel"), "../x");
    assert_eq!(resolve_path("", ""), "");
}

#[test]
fn the_event_table_carries_kind_source_and_metadata() {
    let event = Event::new(EventKind::FileDeleted { path: "a".to_string() }, "watcher")
        .with_metadata("k", "v");
    let table = event_table(&event);
    assert_eq!(table.kind, "FileDeleted");
    assert_eq!(table.source, "watcher");
    assert_eq!(table.metadata, vec![("k".to_string(), "v".to_string())]);
}

#[test]
fn the_host_tables_hold_their_functions() {
    assert_eq!(host_fields("log"), vec!["debug", "info", "warn", "error"]);
    assert_eq!(host_fields("http"), vec!["get", "post"]);
    assert_eq!(host_fields("json"), vec!["encode", "decode"]);
    assert_eq!(host_fields("fs"), vec!["file_size", "exists", "basename", "move", "delete"]);
    assert_eq!(host_fields("os"), vec!["date", "time"]);
    assert_eq!(host_fields("exec"), Vec::<String>::new());
    assert_eq!(host_fields("io"), Vec::<String>::new());
    assert_eq!(host_fields("OS"), Vec::<String>::new());
    for name in globals_to_install() {
        assert_eq!(host_fields(&name).is_empty(), name == "exec");
    }
}

#[test]
fn tables_are_arrays_objects_or_refused() {
    let int = TableKey::Integer;
    let text = |t: &str| TableKey::Text(t.to_string());
    let shape = |keys: Vec<TableKey>| table_shape(&keys);
    assert!(matches!(shape(vec![int(1)]), Ok(TableShape::Array)));
    assert!(matches!(shape(vec![int(1), int(2), int(3)]), Ok(TableShape::Array)));
    assert!(matches!(shape(vec![int(3), int(1), int(2)]), Ok(TableShape::Array)));
    assert!(matches!(shape(vec![]), Ok(TableShape::Object)));
    assert!(matches!(shape(vec![int(1), int(3)]), Ok(TableShape::Object)));
    assert!(matches!(shape(vec![int(0)]), Ok(TableShape::Object)));
    assert!(matches!(shape(vec![int(2)]), Ok(TableShape::Object)));
    assert!(matches!(shape(vec![int(1), int(1)]), Ok(TableShape::Object)));
    assert!(matches!(shape(vec![int(-1), int(1)]), Ok(TableShape::Object)));
    assert!(matches!(shape(vec![int(i64::MIN), int(i64::MAX)]), Ok(TableShape::Object)));
    assert!(matches!(shape(vec![text("a")]), Ok(TableShape::Object)));
    assert!(matches!(shape(vec![int(1), int(2), text("name")]), Ok(TableShape::Object)));
    assert!(matches!(shape(vec![text("1"), text("2")]), Ok(TableShape::Object)));
    for keys in [
        vec![TableKey::Other],
        vec![int(1), int(2), TableKey::Other],
        vec![TableKey::Other, text("a")],
        vec![int(1), TableKey::Other, int(3)],
    ] {
        assert!(matches!(shape(keys), Err(ActionError::Execution(m)) if m == "Invalid table key"));
    }
}
