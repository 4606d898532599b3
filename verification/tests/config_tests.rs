use win_event_engine::config::{
    create_demo_config, default_event_buffer_size, default_http_method, default_log_level,
    default_timer_interval, default_true, ActionConfig, Config, ConfigError, EngineConfig,
    RuleConfig, SourceConfig, SourceType, TriggerConfig,
};

fn file_source(name: &str, pattern: Option<&str>) -> SourceConfig {
    SourceConfig {
        name: name.to_string(),
        source_type: SourceType::FileWatcher {
            paths: vec!["/test".to_string()],
            pattern: pattern.map(|p| p.to_string()),
            recursive: false,
        },
        enabled: true,
    }
}

fn rule(name: &str, trigger: TriggerConfig) -> RuleConfig {
    RuleConfig {
        name: name.to_string(),
        description: None,
        trigger,
        action: ActionConfig::Log { message: "m".to_string(), level: "info".to_string() },
        enabled: true,
    }
}

fn problem(config: &Config) -> String {
    match config.validate() {
        Err(ConfigError::Validation(m)) => m,
        _ => panic!("the configuration should be invalid"),
    }
}

#[test]
fn test_validate_duplicate_source_names() {
    let config = Config {
        sources: vec![
            SourceConfig {
                name: "test".to_string(),
                source_type: SourceType::FileWatcher {
                    paths: vec!["/test".to_string()],
                    pattern: None,
                    recursive: false,
                },
                enabled: true,
            },
            SourceConfig {
                name: "test".to_string(),
                source_type: SourceType::FileWatcher {
                    paths: vec!["/test2".to_string()],
                    pattern: None,
                    recursive: false,
                },
                enabled: true,
            },
        ],
        ..Default::default()
    };

    assert!(config.validate().is_err());
}

#[test]
fn validation_names_the_first_problem() {
    let mut config = Config::default();
    assert!(config.validate().is_ok());
    config.sources = vec![file_source("a", None), file_source("b", None), file_source("a", None)];
    assert_eq!(problem(&config), "Duplicate source name: a");
    config.rules = vec![rule("ok", TriggerConfig::WindowCreated), rule("", TriggerConfig::WindowCreated)];
    assert_eq!(problem(&config), "Rule must have a name");
    config.rules = vec![rule("r", TriggerConfig::FileCreated { pattern: Some("[".to_string()) })];
    assert_eq!(problem(&config), "Duplicate source name: a");
    config.sources = vec![file_source("a", Some("a***"))];
    assert_eq!(problem(&config), "Invalid glob pattern: a***");
    config.sources = vec![file_source("a", Some("*.txt"))];
    assert_eq!(problem(&config), "Invalid glob pattern: [");
    config.rules = vec![rule("r", TriggerConfig::FileDeleted { pattern: Some("*.log".to_string()) })];
    assert!(config.validate().is_ok());
}

#[test]
fn validation_checks_regular_expressions_and_registry_roots() {
    let mut config = Config::default();
    config.sources = vec![SourceConfig {
        name: "w".to_string(),
        source_type: SourceType::WindowWatcher {
            title_pattern: Some("notepad.*".to_string()),
            process_pattern: Some("(".to_string()),
        },
        enabled: false,
    }];
    assert_eq!(problem(&config), "Invalid regex pattern: (");
    config.sources = vec![SourceConfig {
        name: "r".to_string(),
        source_type: SourceType::RegistryMonitor {
            root: "HKCR".to_string(),
            key: "Software".to_string(),
            recursive: true,
        },
        enabled: true,
    }];
    assert_eq!(problem(&config), "Invalid registry root: HKCR");
    for root in ["HKLM", "HKCU", "HKU", "HKCC"] {
        config.sources = vec![SourceConfig {
            name: "r".to_string(),
            source_type: SourceType::RegistryMonitor {
                root: root.to_string(),
                key: "Software".to_string(),
                recursive: false,
            },
            enabled: true,
        }];
        assert!(config.validate().is_ok());
    }
}

#[test]
fn validation_is_idempotent() {
    let config = create_demo_config();
    assert!(config.validate().is_ok());
    assert!(config.validate().is_ok());
    let mut broken = create_demo_config();
    broken.rules[0].name = String::new();
    assert_eq!(problem(&broken), "Rule must have a name");
    assert_eq!(problem(&broken), "Rule must have a name");
}

#[test]
fn defaults() {
    assert_eq!(default_event_buffer_size(), 1000);
    assert!(default_true());
    assert_eq!(default_timer_interval(), 60);
    assert_eq!(default_log_level(), "info");
    assert_eq!(default_http_method(), "POST");
    let engine = EngineConfig::default();
    assert_eq!(engine.event_buffer_size, 1000);
    assert_eq!(engine.log_level, "info");
    let config = Config::default();
    assert!(config.sources.is_empty());
    assert!(config.rules.is_empty());
}

#[test]
fn the_demo_configuration_watches_text_files() {
    let config = create_demo_config();
    assert_eq!(config.engine.event_buffer_size, 100);
    assert_eq!(config.sources.len(), 1);
    assert_eq!(config.sources[0].name, "test_file_watcher");
    match &config.sources[0].source_type {
        SourceType::FileWatcher { paths, pattern, recursive } => {
            assert_eq!(paths, &vec![".".to_string()]);
            assert_eq!(pattern, &Some("*.txt".to_string()));
            assert!(!recursive);
        }
        _ => panic!("a file watcher"),
    }
    assert_eq!(config.rules[0].name, "text_file_created");
    assert!(matches!(&config.rules[0].action, ActionConfig::Log { message, .. } if message == "Text file created!"));
}

#[test]
fn merging_appends_sources_and_rules() {
    let mut config = Config::default();
    config.sources.push(file_source("a", None));
    let mut other = create_demo_config();
    other.engine.event_buffer_size = 7;
    config.merge(other);
    assert_eq!(config.engine.event_buffer_size, 1000);
    assert_eq!(config.sources.len(), 2);
    assert_eq!(config.sources[1].name, "test_file_watcher");
    assert_eq!(config.rules.len(), 1);
}

#[test]
fn configuration_errors_read_well() {
    assert_eq!(
        ConfigError::FileRead("c.toml".to_string(), "denied".to_string()).to_string(),
        "Failed to read config file \"c.toml\": denied"
    );
    assert_eq!(ConfigError::Parse("eof".to_string()).to_string(), "Failed to parse config: eof");
    assert_eq!(
        ConfigError::Validation("v".to_string()).to_string(),
        "Config validation error: v"
    );
}
