use std::sync::{Arc, Mutex};
use win_event_engine::actions::{Action, ActionError, ActionExecutor, ActionResult, LogLevel, Outcome};
use win_event_engine::bus::{create_event_bus, emit, EmitOutcome};
use win_event_engine::accounting::dispatch_recorded;
use win_event_engine::metrics::collector::MetricsCollector;
use win_event_engine::metrics::keys::Labels;
use win_event_engine::config::{
    create_demo_config, ActionConfig, Config, RuleConfig, SourceConfig, SourceType, TriggerConfig,
};
use win_event_engine::engine::{
    action_name, build_rules, create_action, create_plugin, create_rule, dispatch, plugin_plan,
    pump, timer_intervals, ActionSpec, Engine, EngineError, EngineStatus, PluginSpec,
    ReloadDebounce,
};
use win_event_engine::event::{Event, EventKind};
use win_event_engine::plugins::file_watcher::ChangeKind;
use win_event_engine::plugins::registry_monitor::RegistryRoot;
use win_event_engine::rules::RuleMatcher;
use win_event_engine::script::ScriptErrorBehavior;

struct Recorder {
    text: String,
    log: Arc<Mutex<Vec<String>>>,
}

impl Action for Recorder {
    fn execute(&self, _event: &Event) -> Outcome {
        self.log.lock().unwrap().push(self.text.clone());
        Ok(ActionResult::Success { message: None })
    }

    fn description(&self) -> String {
        self.text.clone()
    }
}

fn timer_rule(name: &str, message: &str, enabled: bool) -> RuleConfig {
    RuleConfig {
        name: name.to_string(),
        description: Some("d".to_string()),
        trigger: TriggerConfig::Timer { interval_seconds: 60 },
        action: ActionConfig::Log { message: message.to_string(), level: "warn".to_string() },
        enabled,
    }
}

fn executor_for(engine: &Engine, log: &Arc<Mutex<Vec<String>>>) -> ActionExecutor {
    let mut executor = ActionExecutor::new();
    for (name, spec) in engine.actions.iter() {
        let text = match spec {
            ActionSpec::Log(action) => action.message.clone(),
            _ => "other".to_string(),
        };
        executor.register(name, Box::new(Recorder { text, log: log.clone() }));
    }
    executor
}

#[test]
fn file_rule_triggers_log() {
    let mut engine = Engine::new(create_demo_config(), None);
    engine.initialize_rules();
    assert_eq!(engine.get_status(), EngineStatus { active_plugins: 0, active_rules: 1 });
    let log = Arc::new(Mutex::new(Vec::new()));
    let executor = executor_for(&engine, &log);
    let created = Event::new(EventKind::FileCreated { path: "T/a.txt".to_string() }, "w");
    let outcomes = engine.dispatch(&executor, &created);
    assert_eq!(outcomes.len(), 1);
    assert_eq!(outcomes[0].0, 0);
    assert!(outcomes[0].1.is_ok());
    assert_eq!(*log.lock().unwrap(), vec!["Text file created!".to_string()]);
    let other = Event::new(EventKind::FileCreated { path: "T/a.bin".to_string() }, "w");
    assert!(engine.dispatch(&executor, &other).is_empty());

    let mut metrics = MetricsCollector::new();
    let mut counted = Labels::new();
    counted.insert("plugin", "w");
    counted.insert("type", "FileCreated");
    assert_eq!(metrics.get_counter("events_total", &counted), None);
    let triggered = dispatch_recorded(&engine.rules, &executor, &created, &mut metrics);
    assert_eq!(triggered.len(), 1);
    assert_eq!(metrics.get_counter("events_total", &counted), Some(1));
    assert_eq!(log.lock().unwrap().len(), 2);
}

#[test]
fn matching_rules_run_their_actions_once_each_in_order() {
    let mut config = Config::default();
    config.rules = vec![
        timer_rule("first", "1", true),
        timer_rule("off", "2", false),
        timer_rule("third", "3", true),
        RuleConfig {
            name: "files".to_string(),
            description: None,
            trigger: TriggerConfig::FileCreated { pattern: None },
            action: ActionConfig::Log { message: "4".to_string(), level: "info".to_string() },
            enabled: true,
        },
    ];
    let (rules, actions) = build_rules(&config);
    assert_eq!(rules.len(), 3);
    assert_eq!(
        actions.iter().map(|(n, _)| n.clone()).collect::<Vec<_>>(),
        vec!["rule_0_action", "rule_1_action", "rule_2_action"]
    );
    assert_eq!(rules[1].name, "third");
    let mut engine = Engine::new(config, None);
    engine.initialize_rules();
    let log = Arc::new(Mutex::new(Vec::new()));
    let executor = executor_for(&engine, &log);
    let outcomes = dispatch(&engine.rules, &executor, &Event::new(EventKind::TimerTick, "t"));
    assert_eq!(outcomes.iter().map(|(i, _)| *i).collect::<Vec<_>>(), vec![0, 1]);
    assert_eq!(*log.lock().unwrap(), vec!["1".to_string(), "3".to_string()]);
    let missing = dispatch(&engine.rules, &ActionExecutor::new(), &Event::new(EventKind::TimerTick, "t"));
    assert_eq!(missing.len(), 2);
    assert!(matches!(&missing[0].1, Err(ActionError::Configuration(m)) if m == "Action 'rule_0_action' not found"));
}

#[test]
fn hot_reload_swaps_rules() {
    let mut old = Config::default();
    old.rules = vec![timer_rule("R1", "old", true)];
    let mut engine = Engine::new(old, Some("config.toml".to_string()));
    engine.initialize_rules();
    engine.plugin_started("timer");
    let log = Arc::new(Mutex::new(Vec::new()));
    let tick = Event::new(EventKind::TimerTick, "t");
    engine.dispatch(&executor_for(&engine, &log), &tick);

    let mut new = Config::default();
    new.rules = vec![timer_rule("R2", "new", true), timer_rule("R3", "newer", true)];
    let stopped = engine.reload(new).unwrap();
    assert_eq!(stopped, vec!["timer".to_string()]);
    assert_eq!(engine.get_status(), EngineStatus { active_plugins: 0, active_rules: 2 });
    assert_eq!(engine.config_path, Some("config.toml".to_string()));
    engine.plugin_started("timer");
    assert_eq!(engine.get_status().active_plugins, 1);
    engine.dispatch(&executor_for(&engine, &log), &tick);
    assert_eq!(
        *log.lock().unwrap(),
        vec!["old".to_string(), "new".to_string(), "newer".to_string()]
    );
}

#[test]
fn an_invalid_configuration_changes_nothing() {
    let mut engine = Engine::new(create_demo_config(), None);
    engine.initialize_rules();
    engine.plugin_started("test_file_watcher");
    let before = engine.get_status();
    let mut broken = Config::default();
    broken.rules = vec![timer_rule("", "x", true)];
    match engine.reload(broken) {
        Err(EngineError::Config(m)) => {
            assert_eq!(m, "Config validation error: Rule must have a name")
        }
        _ => panic!("an invalid configuration is refused"),
    }
    assert_eq!(engine.get_status(), before);
    assert_eq!(engine.rules[0].name, "text_file_created");
    assert_eq!(engine.plugins, vec!["test_file_watcher".to_string()]);
    assert_eq!(engine.shutdown(), vec!["test_file_watcher".to_string()]);
    assert_eq!(engine.get_status().active_plugins, 0);
    assert_eq!(
        EngineError::PluginInit("p".to_string(), "m".to_string()).to_string(),
        "Plugin 'p' initialization error: m"
    );
    assert_eq!(EngineError::Config("c".to_string()).to_string(), "Configuration error: c");
}

#[test]
fn rules_are_made_from_their_triggers() {
    let mut config = timer_rule("t", "m", false);
    let rule = create_rule(&config).unwrap();
    assert_eq!(rule.name, "t");
    assert_eq!(rule.description, Some("d".to_string()));
    assert!(!rule.enabled);
    assert!(rule.matcher.matches(&Event::new(EventKind::TimerTick, "x")));
    config.trigger = TriggerConfig::FileModified { pattern: Some("*.rs".to_string()) };
    let rule = create_rule(&config).unwrap();
    assert!(rule.matcher.matches(&Event::new(EventKind::FileModified { path: "a.rs".to_string() }, "x")));
    assert!(!rule.matcher.matches(&Event::new(EventKind::FileCreated { path: "a.rs".to_string() }, "x")));
    config.trigger = TriggerConfig::FileDeleted { pattern: Some("[".to_string()) };
    match create_rule(&config) {
        Err(EngineError::Config(m)) => {
            assert!(m.starts_with("Invalid pattern: "));
            assert!(m.len() > "Invalid pattern: ".len());
        }
        _ => panic!("a glob that does not compile is a configuration error"),
    }
    config.trigger = TriggerConfig::ProcessStarted { process_name: Some("x".to_string()) };
    let rule = create_rule(&config).unwrap();
    let started = EventKind::ProcessStarted {
        pid: 1,
        parent_pid: 0,
        name: "y".to_string(),
        path: String::new(),
        command_line: String::new(),
        session_id: 0,
        user: String::new(),
    };
    assert!(rule.matcher.matches(&Event::new(started, "x")));
    config.trigger = TriggerConfig::WindowUnfocused {
        title_contains: Some("doc".to_string()),
        process_name: None,
    };
    let rule = create_rule(&config).unwrap();
    assert!(rule.matcher.matches(&Event::new(
        EventKind::WindowUnfocused { hwnd: 1, title: "My Doc".to_string() },
        "x"
    )));
}

#[test]
fn actions_are_made_from_their_configuration() {
    match create_action(&ActionConfig::Execute {
        command: "echo".to_string(),
        args: vec!["Hello".to_string()],
        working_dir: Some("/tmp".to_string()),
    }) {
        ActionSpec::Execute(a) => {
            assert_eq!(a.command_line(), "echo Hello");
            assert_eq!(a.working_dir, Some("/tmp".to_string()));
            assert_eq!(a.timeout_seconds, Some(30));
        }
        _ => panic!("execute"),
    }
    match create_action(&ActionConfig::Log { message: "m".to_string(), level: "error".to_string() }) {
        ActionSpec::Log(a) => assert_eq!(a.level, LogLevel::Error),
        _ => panic!("log"),
    }
    match create_action(&ActionConfig::Notify { title: "T".to_string(), message: "M".to_string() }) {
        ActionSpec::Log(a) => assert_eq!(a.message, "T: M"),
        _ => panic!("notify"),
    }
    match create_action(&ActionConfig::HttpRequest {
        url: "http://x".to_string(),
        method: "POST".to_string(),
        headers: vec![],
        body: None,
    }) {
        ActionSpec::Log(a) => assert_eq!(a.message, "HTTP request to: http://x"),
        _ => panic!("http"),
    }
    match create_action(&ActionConfig::Media { command: "play".to_string() }) {
        ActionSpec::PowerShell(a) => {
            assert!(a.script.contains("VK_MEDIA_PLAY_PAUSE = 0xB3"));
            assert!(a.script.ends_with("[MediaKeys]::PlayPause()\n"));
        }
        _ => panic!("media"),
    }
    match create_action(&ActionConfig::PowerShell { script: "s".to_string(), working_dir: None }) {
        ActionSpec::PowerShell(a) => assert_eq!(a.script, "s"),
        _ => panic!("shell"),
    }
    match create_action(&ActionConfig::Script {
        script_path: "a.lua".to_string(),
        function_name: "f".to_string(),
        timeout_ms: None,
        on_error: "continue".to_string(),
    }) {
        ActionSpec::Script { script_path, function_name, timeout_ms, on_error } => {
            assert_eq!(script_path, "a.lua");
            assert_eq!(function_name, "f");
            assert_eq!(timeout_ms, 30000);
            assert_eq!(on_error, ScriptErrorBehavior::Continue);
        }
        _ => panic!("script"),
    }
    assert_eq!(action_name(0), "rule_0_action");
    assert_eq!(action_name(12), "rule_12_action");
}

#[test]
fn plugins_are_made_from_their_sources() {
    let registry = SourceConfig {
        name: "reg".to_string(),
        source_type: SourceType::RegistryMonitor {
            root: "HKCU".to_string(),
            key: "Software".to_string(),
            recursive: true,
        },
        enabled: true,
    };
    match create_plugin(&registry).unwrap() {
        PluginSpec::RegistryMonitor(p) => {
            assert_eq!(p.name, "reg");
            assert_eq!(p.keys[0].root, RegistryRoot::HKEY_CURRENT_USER);
            assert!(p.keys[0].watch_tree);
        }
        _ => panic!("registry"),
    }
    let unknown = SourceConfig {
        name: "reg".to_string(),
        source_type: SourceType::RegistryMonitor {
            root: "HKXX".to_string(),
            key: "Software".to_string(),
            recursive: false,
        },
        enabled: false,
    };
    match create_plugin(&unknown) {
        Err(EngineError::Config(m)) => assert_eq!(m, "Invalid registry root: HKXX"),
        _ => panic!("an unknown root"),
    }
    let window = SourceConfig {
        name: "win".to_string(),
        source_type: SourceType::WindowWatcher {
            title_pattern: Some("(".to_string()),
            process_pattern: Some("chrome.*".to_string()),
        },
        enabled: true,
    };
    match create_plugin(&window).unwrap() {
        PluginSpec::WindowWatcher(p) => {
            assert_eq!(p.title_filter, None);
            assert_eq!(p.process_filter, Some("chrome.*".to_string()));
        }
        _ => panic!("window"),
    }
    let process = SourceConfig {
        name: "proc".to_string(),
        source_type: SourceType::ProcessMonitor {
            process_name: Some("svc".to_string()),
            monitor_threads: true,
            monitor_files: false,
            monitor_network: true,
        },
        enabled: true,
    };
    match create_plugin(&process).unwrap() {
        PluginSpec::ProcessMonitor(p) => {
            assert_eq!(p.filter_name, Some("svc".to_string()));
            assert!(p.monitor_threads && !p.monitor_files && p.monitor_network);
        }
        _ => panic!("process"),
    }
    let mut config = create_demo_config();
    config.sources.push(unknown);
    config.sources.push(registry);
    let plan = plugin_plan(&config);
    assert_eq!(plan.len(), 2);
    match &plan[0] {
        Ok(PluginSpec::FileWatcher(p)) => {
            assert_eq!(p.paths, vec![".".to_string()]);
            assert_eq!(p.pattern, Some("*.txt".to_string()));
            assert!(!p.recursive);
        }
        _ => panic!("file watcher"),
    }
    assert!(matches!(&plan[1], Ok(PluginSpec::RegistryMonitor(_))));
}

#[test]
fn reloads_are_debounced() {
    let toml = vec!["/etc/engine/config.toml".to_string()];
    let other = vec!["/etc/engine/notes.txt".to_string(), "/etc/engine/toml".to_string()];
    let mut debounce = ReloadDebounce::new(1_000);
    assert!(!debounce.on_change(ChangeKind::Modify, &toml, 1_499));
    assert!(debounce.on_change(ChangeKind::Modify, &toml, 1_500));
    assert_eq!(debounce.last_reload_ms, 1_500);
    assert!(!debounce.on_change(ChangeKind::Create, &toml, 1_900));
    assert!(!debounce.on_change(ChangeKind::Create, &other, 5_000));
    assert!(!debounce.on_change(ChangeKind::Remove, &toml, 5_000));
    assert!(!debounce.on_change(ChangeKind::Other, &toml, 5_000));
    assert!(!debounce.on_change(ChangeKind::Create, &toml, 100));
    assert_eq!(debounce.last_reload_ms, 1_500);
    assert!(debounce.on_change(ChangeKind::Create, &toml, 5_000));
}

#[test]
fn the_pump_drains_the_bus() {
    let mut engine = Engine::new(create_demo_config(), None);
    engine.initialize_rules();
    let log = Arc::new(Mutex::new(Vec::new()));
    let executor = executor_for(&engine, &log);
    let (sender, mut receiver) = create_event_bus(10);
    let mut metrics = MetricsCollector::new();
    for name in ["a.txt", "b.log", "c.txt"] {
        let event = Event::new(EventKind::FileCreated { path: name.to_string() }, "w");
        assert_eq!(emit(true, &sender, event, &mut metrics), EmitOutcome::Sent);
    }
    let report = pump(&engine.rules, &executor, &mut receiver, &mut metrics, 2);
    assert_eq!((report.processed, report.triggered, report.disconnected), (2, 1, false));
    let report = pump(&engine.rules, &executor, &mut receiver, &mut metrics, 10);
    assert_eq!((report.processed, report.triggered, report.disconnected), (1, 1, false));
    drop(sender);
    let report = pump(&engine.rules, &executor, &mut receiver, &mut metrics, 10);
    assert_eq!((report.processed, report.triggered, report.disconnected), (0, 0, true));
    assert_eq!(log.lock().unwrap().len(), 2);
}

#[test]
fn timers_tick_at_the_intervals_of_enabled_timer_rules() {
    let mut config = Config::default();
    let mut rule = |seconds: u64, enabled: bool| {
        let mut r = timer_rule("t", "m", enabled);
        r.trigger = TriggerConfig::Timer { interval_seconds: seconds };
        r
    };
    config.rules = vec![rule(60, true), rule(5, true), rule(60, true), rule(7, false), rule(5, true)];
    config.rules.push(RuleConfig {
        name: "f".to_string(),
        description: None,
        trigger: TriggerConfig::WindowCreated,
        action: ActionConfig::Media { command: "play".to_string() },
        enabled: true,
    });
    assert_eq!(timer_intervals(&config), vec![60, 5]);
    assert!(timer_intervals(&Config::default()).is_empty());
}

#[test]
fn a_plugin_that_fails_to_start_is_skipped_and_counted() {
    let mut engine = Engine::new(Config::default(), None);
    let mut metrics = MetricsCollector::new();
    let mut failed = Labels::new();
    failed.insert("plugin", "registry");
    failed.insert("error_type", "initialization");

    assert!(engine.note_plugin_start("files", &Ok(()), &mut metrics).is_none());
    assert_eq!(engine.get_status().active_plugins, 1);
    assert_eq!(engine.plugins, vec!["files".to_string()]);
    assert_eq!(metrics.get_counter("plugins_errors_total", &failed), None);

    let why = win_event_engine::plugin::PluginError::Initialization("no privilege".to_string());
    let report = engine.note_plugin_start("registry", &Err(why), &mut metrics);
    match report {
        Some(EngineError::PluginInit(name, message)) => {
            assert_eq!(name, "registry");
            assert_eq!(message, "Plugin initialization error: no privilege");
        }
        _ => panic!("the failure is reported"),
    }
    assert_eq!(engine.get_status().active_plugins, 1);
    assert_eq!(metrics.get_counter("plugins_errors_total", &failed), Some(1));

    assert!(engine.note_plugin_start("timer", &Ok(()), &mut metrics).is_none());
    assert_eq!(engine.plugins, vec!["files".to_string(), "timer".to_string()]);
}
