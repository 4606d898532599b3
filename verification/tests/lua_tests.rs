use mlua::{Lua, Value};
use std::sync::{Arc, Mutex};
use win_event_engine::actions::{ActionError, ActionResult, Outcome};
use win_event_engine::event::{Event, EventKind};
use win_event_engine::script::{
    event_table, host_fields, table_shape, Answer, Feedback, SandboxStep, ScriptAction,
    ScriptErrorBehavior, ScriptProbe, ScriptRun, TableKey, TableShape,
};

fn done(result: mlua::Result<()>) -> Feedback {
    match result {
        Ok(()) => Feedback::Done,
        Err(e) => Feedback::Failed(e.to_string()),
    }
}

fn install(lua: &Lua, name: &str, logged: &Arc<Mutex<Vec<String>>>) -> mlua::Result<()> {
    let fields = host_fields(name);
    if fields.is_empty() {
        let function = lua.create_function(|_, ()| Ok(()))?;
        return lua.globals().raw_set(name, function);
    }
    let table = lua.create_table()?;
    for field in fields {
        let sink = logged.clone();
        let tag = format!("{}.{}: ", name, field);
        let function = lua.create_function(move |_, text: Option<String>| {
            sink.lock().unwrap().push(format!("{}{}", tag, text.unwrap_or_default()));
            Ok(())
        })?;
        table.raw_set(field, function)?;
    }
    lua.globals().raw_set(name, table)
}

fn call(lua: &Lua, action: &ScriptAction, event: &Event) -> Feedback {
    let fields = event_table(event);
    let table = lua.create_table().unwrap();
    table.raw_set("kind", fields.kind).unwrap();
    table.raw_set("source", fields.source).unwrap();
    let metadata = lua.create_table().unwrap();
    for (key, value) in fields.metadata {
        metadata.raw_set(key, value).unwrap();
    }
    table.raw_set("metadata", metadata).unwrap();
    let entry: mlua::Function = match lua.globals().get(action.function_name.as_str()) {
        Ok(f) => f,
        Err(e) => return Feedback::Missing(e.to_string()),
    };
    let answer = match entry.call::<_, Value>(table) {
        Ok(Value::Table(t)) => Feedback::Returned {
            success: t.get::<_, bool>("success").ok(),
            message: t.get::<_, String>("message").ok(),
        },
        Ok(_) => Feedback::Returned { success: None, message: None },
        Err(e) => Feedback::Failed(e.to_string()),
    };
    answer
}

fn run(action: &ScriptAction, event: &Event, logged: &Arc<Mutex<Vec<String>>>) -> Outcome {
    let lua = Lua::new();
    let mut run = ScriptRun::begin();
    let mut last = Feedback::Start;
    loop {
        let step = match run.advance(action, &last) {
            Answer::Finish(outcome) => return outcome,
            Answer::Do(step) => step,
        };
        last = match &step {
            SandboxStep::Clear(name) => done(lua.globals().raw_set(name.as_str(), Value::Nil)),
            SandboxStep::Install(name) => done(install(&lua, name, logged)),
            SandboxStep::Load => done(lua.load(action.content().as_str()).exec()),
            SandboxStep::Call => call(&lua, action, event),
        };
    }
}

fn action_for(source: &str) -> ScriptAction {
    ScriptAction::new("inline.lua", "on_event", source.to_string(), 0, &ScriptProbe::Valid).unwrap()
}

#[test]
fn test_script_execution() {
    let action = action_for(
        "\nfunction on_event(event)\n    log.info(\"Event received: \" .. event.kind)\n    return {success = true, message = \"Processed\"}\nend\n",
    );
    let logged = Arc::new(Mutex::new(Vec::new()));
    let event = Event::new(EventKind::TimerTick, "test").with_metadata("k", "v");
    let result = run(&action, &event, &logged);
    assert!(result.is_ok());
    assert!(matches!(result, Ok(ActionResult::Success { message: Some(m) }) if m == "Processed"));
    assert_eq!(*logged.lock().unwrap(), vec!["log.info: Event received: TimerTick".to_string()]);
}

#[test]
fn the_script_sees_the_event_and_no_dangerous_global() {
    let source = "
local seen = {}
for _, name in ipairs({'dofile', 'loadfile', 'load', 'require', 'io', 'debug'}) do
    if _G[name] ~= nil then seen[#seen + 1] = name end
end
local at_load = table.concat(seen, ',')
local host = type(os) .. type(log) .. type(http) .. type(json) .. type(fs) .. type(exec)
local fields = {}
for name in pairs(os) do fields[#fields + 1] = name end
table.sort(fields)
host = host .. ':' .. table.concat(fields, ',') .. ':' .. type(os.date) .. type(log.warn)
function on_event(event)
    return {
        success = at_load == '' and host == string.rep('table', 5) .. 'function:date,time:functionfunction',
        message = at_load .. '|' .. host .. '|' .. event.source .. '|' .. event.metadata.path,
    }
end
";
    let action = action_for(source).with_error_behavior(ScriptErrorBehavior::Fail);
    let logged = Arc::new(Mutex::new(Vec::new()));
    let event = Event::new(EventKind::FileCreated { path: "a.txt".to_string() }, "watcher")
        .with_metadata("path", "a.txt");
    let result = run(&action, &event, &logged);
    assert!(
        matches!(&result, Ok(ActionResult::Success { message: Some(m) })
            if m == "|tabletabletabletabletablefunction:date,time:functionfunction|watcher|a.txt"),
        "{:?}",
        result
    );
}

#[test]
fn a_failing_script_obeys_the_policy() {
    let source = "function on_event(event) return {success = false, message = 'x'} end";
    let event = Event::new(EventKind::TimerTick, "t");
    let logged = Arc::new(Mutex::new(Vec::new()));

    let lenient = action_for(source).with_error_behavior(ScriptErrorBehavior::Continue);
    let result = run(&lenient, &event, &logged);
    assert!(matches!(&result, Ok(ActionResult::Success { message: Some(m) }) if m.contains("x")));

    let strict = action_for(source);
    let result = run(&strict, &event, &logged);
    assert!(matches!(&result, Err(ActionError::Execution(m)) if m == "Script returned failure: x"));

    let raising = action_for("function on_event(event) error('boom') end");
    let result = run(&raising, &event, &logged);
    assert!(matches!(&result, Err(ActionError::Execution(m))
        if m.starts_with("Lua execution error: ") && m.contains("boom")));

    let broken = action_for("function on_event(event");
    let result = run(&broken, &event, &logged);
    assert!(matches!(&result, Err(ActionError::Execution(m)) if m.starts_with("Failed to load script: ")));

    let absent = action_for("function other(event) end");
    let result = run(&absent, &event, &logged);
    assert!(result.is_err());
}

fn shape_of(lua: &Lua, source: &str) -> Result<TableShape, ActionError> {
    let table: mlua::Table = lua.load(source).eval().unwrap();
    let mut keys = Vec::new();
    for pair in table.pairs::<Value, Value>() {
        let (key, _) = pair.unwrap();
        keys.push(match key {
            Value::Integer(i) => TableKey::Integer(i),
            Value::String(s) => TableKey::Text(s.to_str().unwrap().to_string()),
            _ => TableKey::Other,
        });
    }
    table_shape(&keys)
}

#[test]
fn tables_of_a_real_interpreter_have_their_shape() {
    let lua = Lua::new();
    assert!(matches!(shape_of(&lua, "return {10, 20, 30}"), Ok(TableShape::Array)));
    assert!(matches!(shape_of(&lua, "return {'a'}"), Ok(TableShape::Array)));
    assert!(matches!(shape_of(&lua, "return {}"), Ok(TableShape::Object)));
    assert!(matches!(shape_of(&lua, "return {key = 'value', num = 42}"), Ok(TableShape::Object)));
    assert!(matches!(shape_of(&lua, "return {1, 2, name = 'x'}"), Ok(TableShape::Object)));
    assert!(matches!(shape_of(&lua, "return {[1] = 'a', [3] = 'c'}"), Ok(TableShape::Object)));
    assert!(matches!(shape_of(&lua, "return {[0] = 'a'}"), Ok(TableShape::Object)));
    assert!(matches!(
        shape_of(&lua, "return {[1.5] = 'a'}"),
        Err(ActionError::Execution(m)) if m == "Invalid table key"
    ));
    assert!(matches!(
        shape_of(&lua, "return {1, 2, [true] = 'a'}"),
        Err(ActionError::Execution(m)) if m == "Invalid table key"
    ));
}
