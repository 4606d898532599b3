use tempfile::TempDir;
use win_event_engine::event::{EventKind, NetworkProtocol, RegistryChangeType};
use win_event_engine::plugin::{Lifecycle, PluginError, StartDecision};
use win_event_engine::plugins::file_watcher::{ChangeKind, FileChange, FileWatcherPlugin};
use win_event_engine::plugins::process_monitor::{
    diff_snapshots, extract_file_path, extract_unicode_strings, parse_etw_event, parse_ip_address,
    process_name_from, protocol_of, sanitize_name, session_error, to_event, EtwEvent,
    ProcessMonitorPlugin, ProviderKind, EVENT_FILE_READ, EVENT_NETWORK_CONNECT,
    EVENT_PROCESS_START, EVENT_PROCESS_STOP, EVENT_THREAD_START, KERNEL_FILE_PROVIDER,
    KERNEL_NETWORK_PROVIDER, KERNEL_PROCESS_PROVIDER,
};
use win_event_engine::plugins::registry_monitor;
use win_event_engine::plugins::registry_monitor::{
    extract_root_from_path, extract_two_unicode_strings, extract_unicode_string,
    RegistryMonitorPlugin, RegistryRoot,
};
use win_event_engine::plugins::timer::TimerPlugin;
use win_event_engine::plugins::window_watcher::{resolve_process_name, WindowEventPlugin};

fn utf16(text: &str) -> Vec<u8> {
    let mut data = Vec::new();
    for ch in text.encode_utf16() {
        data.extend_from_slice(&ch.to_le_bytes());
    }
    data
}

#[test]
fn test_pattern_matching() {
    let temp_dir = TempDir::new().unwrap();
    let plugin = FileWatcherPlugin::new(
        "test",
        vec![temp_dir.path().to_string_lossy().into_owned()],
    )
    .with_pattern("*.txt");

    assert!(plugin.should_emit_event("file.txt"));
    assert!(plugin.should_emit_event("/path/to/file.txt"));
    assert!(!plugin.should_emit_event("file.log"));
}

#[test]
fn test_no_pattern_matches_all() {
    let temp_dir = TempDir::new().unwrap();
    let plugin =
        FileWatcherPlugin::new("test", vec![temp_dir.path().to_string_lossy().into_owned()]);

    assert!(plugin.should_emit_event("file.txt"));
    assert!(plugin.should_emit_event("file.log"));
    assert!(plugin.should_emit_event("anything"));
}

#[test]
fn the_watcher_holds_the_glob_against_the_file_name() {
    let plugin = FileWatcherPlugin::new("watch", vec!["/w".to_string()]).with_pattern("a.*");
    assert!(plugin.should_emit_event("/w/deep/a.txt"));
    assert!(plugin.should_emit_event("a.log"));
    assert!(!plugin.should_emit_event("/a.d/b.txt"));
    assert!(!plugin.should_emit_event("/w/.."));
}

#[test]
fn file_changes_become_events_of_their_kind() {
    let plugin = FileWatcherPlugin::new("watch", vec!["/w".to_string()]).with_pattern("*.txt");
    let change = FileChange {
        kind: ChangeKind::Create,
        paths: vec!["/w/a.txt".to_string(), "/w/b.log".to_string(), "/w/c.txt".to_string()],
    };
    let events = plugin.convert_notify_event(&change);
    assert_eq!(events.len(), 2);
    assert_eq!(events[0].kind, EventKind::FileCreated { path: "/w/a.txt".to_string() });
    assert_eq!(events[1].kind, EventKind::FileCreated { path: "/w/c.txt".to_string() });
    assert_eq!(events[1].source, "watch");
    assert_eq!(events[1].metadata.get("watcher_path"), Some(&"/w/c.txt".to_string()));
    assert_eq!(events[1].metadata.len(), 1);
    let modified = FileChange { kind: ChangeKind::Modify, paths: vec!["/w/a.txt".to_string()] };
    assert_eq!(
        plugin.convert_notify_event(&modified)[0].kind,
        EventKind::FileModified { path: "/w/a.txt".to_string() }
    );
    let removed = FileChange { kind: ChangeKind::Remove, paths: vec!["/w/a.txt".to_string()] };
    assert_eq!(
        plugin.convert_notify_event(&removed)[0].kind,
        EventKind::FileDeleted { path: "/w/a.txt".to_string() }
    );
    let other = FileChange { kind: ChangeKind::Other, paths: vec!["/w/a.txt".to_string()] };
    assert!(plugin.convert_notify_event(&other).is_empty());
}

#[test]
fn file_watcher_start_rules() {
    let mut plugin = FileWatcherPlugin::new("w", vec![]);
    assert!(plugin.recursive);
    assert!(!plugin.is_running());
    match plugin.start_decision() {
        Err(PluginError::Configuration(m)) => assert_eq!(m, "No paths specified for file watcher"),
        _ => panic!("no paths"),
    }
    plugin.paths = vec!["/a".to_string(), "/missing".to_string(), "/b".to_string()];
    assert_eq!(plugin.start_decision().unwrap(), StartDecision::Launch);
    assert_eq!(
        plugin.paths_to_watch(&vec![true, false, true]),
        vec!["/a".to_string(), "/b".to_string()]
    );
    assert_eq!(plugin.paths_to_watch(&vec![true]), vec!["/a".to_string()]);
    let broken = plugin.clone().with_pattern("[").with_recursive(false);
    assert!(!broken.recursive);
    match broken.start_decision() {
        Err(PluginError::Configuration(m)) => assert_eq!(m, "Invalid file pattern: ["),
        _ => panic!("an invalid glob"),
    }
    assert!(broken.should_emit_event("/a/x"));
    assert!(!broken.should_emit_event("/"));
    plugin.finish_start(true);
    assert!(plugin.is_running());
    assert_eq!(plugin.start_decision().unwrap(), StartDecision::AlreadyRunning);
    plugin.stop();
    assert!(!plugin.is_running());
    plugin.stop();
    assert!(!plugin.is_running());
}

#[test]
fn test_ip_address_parsing() {
    // IPv4
    let ipv4_mapped = vec![0u8, 0, 0, 0, 0, 0, 0, 0, 0, 0, 0xff, 0xff, 192, 168, 1, 1];
    assert_eq!(parse_ip_address(&ipv4_mapped), "192.168.1.1");

    // IPv6
    let ipv6 = vec![
        0x20u8, 0x01, 0x0d, 0xb8, 0x00, 0x00, 0x00, 0x00, 0x00, 0x00, 0x00, 0x00, 0x00, 0x00, 0x00,
        0x01,
    ];
    let result = parse_ip_address(&ipv6);
    assert!(result.contains(":"));
    assert_eq!(result, "2001:0db8:0000:0000:0000:0000:0000:0001");
}

#[test]
fn short_addresses() {
    assert_eq!(parse_ip_address(&[10, 0, 0, 255]), "10.0.0.255");
    assert_eq!(parse_ip_address(&[10, 0, 0, 255, 9, 9]), "10.0.0.255");
    assert_eq!(parse_ip_address(&[10, 0, 0]), "unknown");
    assert_eq!(parse_ip_address(&[]), "unknown");
    let almost_mapped = vec![0u8, 0, 0, 0, 0, 0, 0, 0, 0, 1, 0xff, 0xff, 192, 168, 1, 1];
    assert_eq!(parse_ip_address(&almost_mapped), "0000:0000:0000:0000:0001:ffff:c0a8:0101");
}

#[test]
fn process_monitor_test_unicode_string_extraction() {
    // Create test data with UTF-16 strings
    let mut data = Vec::new();
    // First string: "test"
    for ch in "test".encode_utf16() {
        data.extend_from_slice(&ch.to_le_bytes());
    }
    data.extend_from_slice(&[0u8, 0u8]); // null terminator
    // Second string: "process"
    for ch in "process".encode_utf16() {
        data.extend_from_slice(&ch.to_le_bytes());
    }
    data.extend_from_slice(&[0u8, 0u8]); // null terminator

    let (first, second) = extract_unicode_strings(&data);
    assert_eq!(first, Some("test".to_string()));
    assert_eq!(second, Some("process".to_string()));
}

#[test]
fn strings_between_null_units() {
    assert_eq!(extract_unicode_strings(&[0x41, 0]), (None, None));
    assert_eq!(extract_unicode_strings(&[0, 0, 0, 0]), (None, None));
    let mut data = vec![0u8, 0];
    data.extend(utf16("a"));
    data.extend([0u8, 0, 0, 0]);
    data.extend(utf16("bc"));
    data.push(0x7f);
    assert_eq!(
        extract_unicode_strings(&data),
        (Some("a".to_string()), Some("bc".to_string()))
    );
    assert_eq!(extract_unicode_strings(&utf16("only")), (Some("only".to_string()), None));
}

#[test]
fn file_paths_are_counted_or_null_terminated() {
    let mut counted = vec![3u8, 0];
    counted.extend(utf16("C:\\"));
    counted.extend(utf16("ignored"));
    assert_eq!(extract_file_path(&counted), Some("C:\\".to_string()));
    let mut terminated = utf16("D:\\x");
    terminated.extend([0u8, 0]);
    terminated.extend(utf16("rest"));
    assert_eq!(extract_file_path(&terminated), Some("D:\\x".to_string()));
    assert_eq!(extract_file_path(&[0, 0, 0x41, 0]), None);
    assert_eq!(extract_file_path(&[7]), None);
    assert_eq!(extract_file_path(&[]), None);
}

#[test]
fn test_builder_methods() {
    let plugin = ProcessMonitorPlugin::new("test")
        .with_name_filter("chrome")
        .with_thread_monitoring(true)
        .with_file_monitoring(true)
        .with_network_monitoring(true);

    assert!(plugin.monitor_threads);
    assert!(plugin.monitor_files);
    assert!(plugin.monitor_network);
    assert_eq!(plugin.filter_name, Some("chrome".to_string()));
}

#[test]
fn process_monitor_sessions_and_providers() {
    let plugin = ProcessMonitorPlugin::new("My Monitor-1");
    assert!(plugin.session_name.starts_with("wee_my_monitor_1_"));
    assert_eq!(plugin.session_name.len(), "wee_my_monitor_1_".len() + 32);
    assert!(plugin.session_name["wee_my_monitor_1_".len()..]
        .chars()
        .all(|c| c.is_ascii_digit() || ('a'..='f').contains(&c)));
    let other = ProcessMonitorPlugin::new("My Monitor-1");
    assert_ne!(plugin.session_name, other.session_name);
    assert_eq!(sanitize_name("A b-C"), "a_b_c");
    assert_eq!(plugin.providers(), vec![ProviderKind::Process]);
    let all = plugin
        .with_thread_monitoring(true)
        .with_file_monitoring(true)
        .with_network_monitoring(true);
    assert_eq!(
        all.providers(),
        vec![ProviderKind::Process, ProviderKind::Thread, ProviderKind::File, ProviderKind::Network]
    );
    assert_eq!(ProviderKind::Thread.guid(), KERNEL_PROCESS_PROVIDER);
    assert_eq!(ProviderKind::File.guid(), KERNEL_FILE_PROVIDER);
    assert_eq!(ProviderKind::Network.guid(), KERNEL_NETWORK_PROVIDER);
    let filtered = all.with_name_filter("Chrome");
    assert!(filtered.passes_filter("chrome.exe"));
    assert!(filtered.passes_filter("GoogleCHROMEHelper"));
    assert!(!filtered.passes_filter("firefox.exe"));
}

#[test]
fn process_monitor_lifecycle() {
    let mut plugin = ProcessMonitorPlugin::new("test_process_etw");
    assert!(!plugin.is_running());
    assert_eq!(plugin.start_decision(), StartDecision::Launch);
    match plugin.finish_start(Err(5)) {
        Err(PluginError::Initialization(m)) => assert_eq!(
            m,
            "Failed to start ETW monitoring. Administrator privileges are required for ETW."
        ),
        _ => panic!("a denied session is an initialization error"),
    }
    assert!(!plugin.is_running());
    match plugin.finish_start(Err(183)) {
        Err(PluginError::Configuration(m)) => assert_eq!(
            m,
            format!(
                "ETW session '{}' already exists. Try restarting or use a different name.",
                plugin.session_name
            )
        ),
        _ => panic!("a session name that is taken is a configuration error"),
    }
    assert!(!plugin.is_running());
    match plugin.finish_start(Err(87)) {
        Err(PluginError::Initialization(m)) => assert_eq!(m, "Failed to create ETW session: 87"),
        _ => panic!("another refusal is an initialization error"),
    }
    assert!(!plugin.is_running());
    assert!(plugin.finish_start(Ok(())).is_ok());
    assert!(plugin.is_running());
    assert_eq!(plugin.start_decision(), StartDecision::AlreadyRunning);
    plugin.stop();
    assert!(!plugin.is_running());
    match session_error("wee_x", 183) {
        PluginError::Configuration(m) => assert_eq!(
            m,
            "ETW session 'wee_x' already exists. Try restarting or use a different name."
        ),
        _ => panic!("an existing session is a configuration error"),
    }
    assert!(matches!(session_error("wee_x", 5), PluginError::Initialization(_)));
    match session_error("wee_x", 1450) {
        PluginError::Initialization(m) => assert_eq!(m, "Failed to create ETW session: 1450"),
        _ => panic!("other failures are initialization errors"),
    }
    assert_eq!(
        PluginError::Runtime("r".to_string()).to_string(),
        "Plugin runtime error: r"
    );
    assert_eq!(
        PluginError::Configuration("c".to_string()).to_string(),
        "Plugin configuration error: c"
    );
    assert_eq!(
        PluginError::Initialization("i".to_string()).to_string(),
        "Plugin initialization error: i"
    );
    assert!(Lifecycle::Stopped.after_launch(true).is_running());
    assert!(!Lifecycle::Stopped.after_launch(false).is_running());
    assert!(!Lifecycle::Running.after_stop().is_running());
}

#[test]
fn trace_records_parse_by_provider_and_number() {
    let mut start = Vec::new();
    start.extend(4242u32.to_le_bytes());
    start.extend(7u32.to_le_bytes());
    start.extend(2u32.to_le_bytes());
    start.extend([0u8; 4]);
    start.extend(utf16("app.exe"));
    start.extend([0u8, 0]);
    start.extend(utf16("app.exe --flag"));
    match parse_etw_event(KERNEL_PROCESS_PROVIDER, EVENT_PROCESS_START, &start) {
        Some(EtwEvent::ProcessStart { pid, parent_pid, image_name, command_line, session_id, user_sid }) => {
            assert_eq!((pid, parent_pid, session_id), (4242, 7, 2));
            assert_eq!(image_name, "app.exe");
            assert_eq!(command_line, "app.exe --flag");
            assert_eq!(user_sid, None);
        }
        _ => panic!("a process start"),
    }
    match parse_etw_event(KERNEL_PROCESS_PROVIDER, EVENT_PROCESS_START, &start[..16]) {
        Some(EtwEvent::ProcessStart { image_name, command_line, .. }) => {
            assert_eq!(image_name, "PID:4242");
            assert_eq!(command_line, "");
        }
        _ => panic!("a process start without strings"),
    }
    assert!(parse_etw_event(KERNEL_PROCESS_PROVIDER, EVENT_PROCESS_START, &start[..15]).is_none());

    let mut stop = Vec::new();
    stop.extend(9u32.to_le_bytes());
    stop.extend(0xC000_0005u32.to_le_bytes());
    assert!(matches!(
        parse_etw_event(KERNEL_PROCESS_PROVIDER, EVENT_PROCESS_STOP, &stop),
        Some(EtwEvent::ProcessStop { pid: 9, exit_code: 0xC000_0005 })
    ));
    assert!(parse_etw_event(KERNEL_PROCESS_PROVIDER, EVENT_PROCESS_STOP, &stop[..7]).is_none());
    assert!(parse_etw_event(KERNEL_PROCESS_PROVIDER, 99, &stop).is_none());
    assert!(parse_etw_event(1, EVENT_PROCESS_STOP, &stop).is_none());

    let mut thread = Vec::new();
    thread.extend(11u32.to_le_bytes());
    thread.extend(22u32.to_le_bytes());
    thread.extend(0x0102_0304_0506_0708u64.to_le_bytes());
    assert!(matches!(
        parse_etw_event(KERNEL_PROCESS_PROVIDER, EVENT_THREAD_START, &thread),
        Some(EtwEvent::ThreadStart { pid: 22, tid: 11, start_address: 0x0102_0304_0506_0708 })
    ));

    let mut read = Vec::new();
    read.extend(5u32.to_le_bytes());
    read.extend([0u8; 4]);
    read.extend(u64::MAX.to_le_bytes());
    read.extend(utf16("C:\\f"));
    match parse_etw_event(KERNEL_FILE_PROVIDER, EVENT_FILE_READ, &read) {
        Some(EtwEvent::FileRead { pid, path, bytes_read }) => {
            assert_eq!(pid, 5);
            assert_eq!(path, "C:\\f");
            assert_eq!(bytes_read, u64::MAX);
        }
        _ => panic!("a file read"),
    }
    assert!(parse_etw_event(KERNEL_FILE_PROVIDER, EVENT_FILE_READ, &[]).is_none());

    let mut connect = Vec::new();
    connect.extend(77u32.to_le_bytes());
    connect.extend([0u8; 4]);
    connect.extend(443u16.to_le_bytes());
    connect.extend(51000u16.to_le_bytes());
    connect.push(6);
    connect.extend([0u8; 3]);
    connect.extend([0u8, 0, 0, 0, 0, 0, 0, 0, 0, 0, 0xff, 0xff, 10, 1, 2, 3]);
    match parse_etw_event(KERNEL_NETWORK_PROVIDER, EVENT_NETWORK_CONNECT, &connect) {
        Some(EtwEvent::NetworkConnect { pid, local_addr, local_port, remote_addr, remote_port, protocol }) => {
            assert_eq!(pid, 77);
            assert_eq!(local_addr, "10.1.2.3");
            assert_eq!(local_port, 443);
            assert_eq!(remote_port, 51000);
            assert_eq!(remote_addr, "unknown");
            assert_eq!(protocol, NetworkProtocol::Tcp);
        }
        _ => panic!("a connection"),
    }
    assert_eq!(protocol_of(17), NetworkProtocol::Udp);
    assert_eq!(protocol_of(1), NetworkProtocol::Other("1".to_string()));
}

#[test]
fn records_become_events_with_metadata() {
    let record = EtwEvent::ProcessStart {
        pid: 1,
        parent_pid: 2,
        image_name: "a.exe".to_string(),
        command_line: "a".to_string(),
        session_id: 3,
        user_sid: None,
    };
    let event = to_event(&record, "etw", "ignored");
    assert_eq!(event.source, "etw");
    assert_eq!(
        event.kind,
        EventKind::ProcessStarted {
            pid: 1,
            parent_pid: 2,
            name: "a.exe".to_string(),
            path: "a.exe".to_string(),
            command_line: "a".to_string(),
            session_id: 3,
            user: String::new(),
        }
    );
    assert_eq!(event.metadata.get("process_name"), Some(&"a.exe".to_string()));
    assert_eq!(event.metadata.get("parent_pid"), Some(&"2".to_string()));
    let stop = to_event(&EtwEvent::ProcessStop { pid: 4, exit_code: 1 }, "etw", "b.exe");
    assert_eq!(
        stop.kind,
        EventKind::ProcessStopped { pid: 4, name: "b.exe".to_string(), exit_code: Some(1) }
    );
    assert_eq!(stop.metadata.get("exit_code"), Some(&"1".to_string()));
    let connect = to_event(
        &EtwEvent::NetworkConnect {
            pid: 5,
            local_addr: "l".to_string(),
            local_port: 1,
            remote_addr: "r".to_string(),
            remote_port: 2,
            protocol: NetworkProtocol::Other("47".to_string()),
        },
        "etw",
        "c.exe",
    );
    assert_eq!(connect.metadata.get("protocol"), Some(&"Other(\"47\")".to_string()));
    assert_eq!(connect.metadata.get("process_name"), Some(&"c.exe".to_string()));
    let create = to_event(&EtwEvent::FileCreate { pid: 6, path: "p".to_string() }, "etw", "d");
    assert_eq!(create.kind, EventKind::FileAccessed { pid: 6, path: "p".to_string(), access_mask: 0 });
    assert_eq!(create.metadata.get("operation"), Some(&"create".to_string()));
    assert_eq!(process_name_from(0, None), "System");
    assert_eq!(process_name_from(12, None), "PID:12");
    assert_eq!(process_name_from(12, Some("/bin/tool")), "tool");
    assert_eq!(process_name_from(12, Some("/")), "unknown");
}

#[test]
fn polling_reports_started_and_stopped_processes() {
    let first = vec![1u32, 2, 3];
    assert_eq!(diff_snapshots(None, &first), (vec![], vec![]));
    let second = vec![2u32, 3, 4, 5];
    assert_eq!(diff_snapshots(Some(&first), &second), (vec![4, 5], vec![1]));
    assert_eq!(diff_snapshots(Some(&second), &second), (vec![], vec![]));
    assert_eq!(diff_snapshots(Some(&second), &vec![]), (vec![], vec![2, 3, 4, 5]));
}

#[test]
fn test_registry_key_config() {
    let plugin = RegistryMonitorPlugin::new("test")
        .watch_key(RegistryRoot::HKEY_CURRENT_USER, "Software\\Test")
        .watch_key_recursive(RegistryRoot::HKEY_LOCAL_MACHINE, "SYSTEM\\CurrentControlSet");

    assert_eq!(plugin.keys.len(), 2);
    assert!(!plugin.keys[0].watch_tree);
    assert!(plugin.keys[1].watch_tree);
}

#[test]
fn test_registry_root_to_string() {
    assert_eq!(RegistryRoot::HKEY_LOCAL_MACHINE.to_string(), "HKLM");
    assert_eq!(RegistryRoot::HKEY_CURRENT_USER.to_string(), "HKCU");
    assert_eq!(RegistryRoot::HKEY_USERS.to_string(), "HKU");
    assert_eq!(RegistryRoot::HKEY_CURRENT_CONFIG.to_string(), "HKCC");
}

#[test]
fn test_key_filtering() {
    let plugin = RegistryMonitorPlugin::new("test")
        .watch_key(RegistryRoot::HKEY_CURRENT_USER, "Software\\Chrome")
        .watch_key_recursive(RegistryRoot::HKEY_LOCAL_MACHINE, "SYSTEM");

    // Should match exact watched key
    assert!(plugin.should_emit_event("HKEY_CURRENT_USER\\Software\\Chrome"));

    // Should match child of watched key
    assert!(plugin.should_emit_event("HKEY_CURRENT_USER\\Software\\Chrome\\Extensions"));

    // Should match recursive watched key
    assert!(plugin.should_emit_event("HKEY_LOCAL_MACHINE\\SYSTEM\\CurrentControlSet"));

    // Should not match unwatched key
    assert!(!plugin.should_emit_event("HKEY_CURRENT_USER\\Software\\Firefox"));
}

#[test]
fn registry_monitor_test_unicode_string_extraction() {
    // Create test data with UTF-16LE string
    let mut data = Vec::new();
    for ch in "test_key".encode_utf16() {
        data.extend_from_slice(&ch.to_le_bytes());
    }
    data.extend_from_slice(&[0u8, 0u8]); // null terminator

    let result = extract_unicode_string(&data);
    assert_eq!(result, Some("test_key".to_string()));
}

#[test]
fn test_extract_root_from_path() {
    assert_eq!(extract_root_from_path("HKEY_LOCAL_MACHINE\\Software"), "HKLM");
    assert_eq!(extract_root_from_path("HKEY_CURRENT_USER\\Software"), "HKCU");
    assert_eq!(extract_root_from_path("HKEY_USERS\\.Default"), "HKU");
    assert_eq!(extract_root_from_path("HKEY_CLASSES_ROOT\\.txt"), "HKCR");
}

#[test]
fn registry_roots_and_names() {
    assert_eq!(extract_root_from_path("HKEY_CURRENT_CONFIG\\x"), "HKCC");
    assert_eq!(extract_root_from_path("\\REGISTRY\\MACHINE"), "UNKNOWN");
    assert_eq!(RegistryRoot::HKEY_USERS.to_full_name(), "HKEY_USERS");
    assert_eq!(RegistryRoot::HKEY_CURRENT_CONFIG.to_full_name(), "HKEY_CURRENT_CONFIG");
    assert_eq!(RegistryRoot::parse("HKLM"), Some(RegistryRoot::HKEY_LOCAL_MACHINE));
    assert_eq!(RegistryRoot::parse("HKCU"), Some(RegistryRoot::HKEY_CURRENT_USER));
    assert_eq!(RegistryRoot::parse("hklm"), None);
    assert_eq!(extract_unicode_string(&[0, 0, 0x41, 0]), None);
    assert_eq!(extract_unicode_string(&[0x41]), None);
    assert_eq!(
        extract_two_unicode_strings(&[0x41, 0, 0, 0, 0x42, 0]),
        (Some("A".to_string()), Some("B".to_string()))
    );
    assert_eq!(extract_two_unicode_strings(&[0x41, 0]), (Some("A".to_string()), None));
}

#[test]
fn registry_records_parse_and_become_events() {
    let mut set_value = Vec::new();
    set_value.extend(4u32.to_le_bytes());
    set_value.extend(8u32.to_le_bytes());
    set_value.extend([0u8; 8]);
    set_value.extend(utf16("HKEY_CURRENT_USER\\Software\\App"));
    set_value.extend([0u8, 0]);
    set_value.extend(utf16("Version"));
    let record = registry_monitor::parse_etw_event(
        registry_monitor::KERNEL_REGISTRY_PROVIDER,
        registry_monitor::EVENT_REG_SET_VALUE,
        10,
        20,
        &set_value,
    )
    .unwrap();
    match &record {
        registry_monitor::EtwEvent::RegistryValueSet {
            process_id,
            thread_id,
            key_path,
            value_name,
            data_type,
            data_size,
        } => {
            assert_eq!((*process_id, *thread_id, *data_type, *data_size), (10, 20, 4, 8));
            assert_eq!(key_path, "HKEY_CURRENT_USER\\Software\\App");
            assert_eq!(value_name, "Version");
        }
        _ => panic!("a value was set"),
    }
    let plugin = RegistryMonitorPlugin::new("reg")
        .watch_key(RegistryRoot::HKEY_CURRENT_USER, "Software\\App");
    let event = plugin.event_for(&record, "app.exe").unwrap();
    assert_eq!(event.source, "reg");
    assert_eq!(
        event.kind,
        EventKind::RegistryChanged {
            root: "HKCU".to_string(),
            key: "HKEY_CURRENT_USER\\Software\\App".to_string(),
            value_name: Some("Version".to_string()),
            change_type: RegistryChangeType::Modified,
        }
    );
    assert_eq!(event.metadata.get("process_name"), Some(&"app.exe".to_string()));
    assert_eq!(event.metadata.get("process_id"), Some(&"10".to_string()));
    assert_eq!(event.metadata.get("data_size"), Some(&"8".to_string()));
    let elsewhere = RegistryMonitorPlugin::new("reg")
        .watch_key(RegistryRoot::HKEY_CURRENT_USER, "Software\\Other");
    assert!(elsewhere.event_for(&record, "app.exe").is_none());

    let mut open = Vec::new();
    open.extend(0x20019u32.to_le_bytes());
    open.extend([0u8; 4]);
    open.extend(utf16("HKEY_CURRENT_USER\\Software\\App"));
    let opened = registry_monitor::parse_etw_event(
        registry_monitor::KERNEL_REGISTRY_PROVIDER,
        registry_monitor::EVENT_REG_OPEN_KEY,
        1,
        2,
        &open,
    )
    .unwrap();
    assert!(plugin.event_for(&opened, "app.exe").is_none());
    assert!(registry_monitor::parse_etw_event(
        KERNEL_PROCESS_PROVIDER,
        registry_monitor::EVENT_REG_OPEN_KEY,
        1,
        2,
        &open
    )
    .is_none());
    assert!(registry_monitor::parse_etw_event(
        registry_monitor::KERNEL_REGISTRY_PROVIDER,
        registry_monitor::EVENT_REG_CREATE_KEY,
        1,
        2,
        &open[..7]
    )
    .is_none());
}

#[test]
fn registry_monitor_lifecycle() {
    let mut plugin = RegistryMonitorPlugin::new("test_registry_etw");
    assert!(plugin.session_name.starts_with("wee_reg_test_registry_etw_"));
    assert!(plugin.should_emit_event("anything"));
    match plugin.start_decision() {
        Err(PluginError::Configuration(m)) => assert_eq!(m, "No registry keys specified to watch"),
        _ => panic!("nothing to watch"),
    }
    let mut plugin = plugin.clone().watch_key(RegistryRoot::HKEY_CURRENT_USER, "Software\\Test");
    assert_eq!(
        plugin.build_key_filters(),
        vec!["hkey_current_user\\software\\test".to_string()]
    );
    assert!(!plugin.is_running());
    assert_eq!(plugin.start_decision().unwrap(), StartDecision::Launch);
    match plugin.finish_start(Err(183)) {
        Err(PluginError::Configuration(m)) => assert_eq!(
            m,
            format!(
                "ETW session '{}' already exists. Try restarting or use a different name.",
                plugin.session_name
            )
        ),
        _ => panic!("a session name that is taken is a configuration error"),
    }
    assert!(!plugin.is_running());
    match plugin.finish_start(Err(5)) {
        Err(PluginError::Initialization(m)) => assert_eq!(
            m,
            "Failed to start ETW monitoring. Administrator privileges are required for ETW."
        ),
        _ => panic!("a denied session is an initialization error"),
    }
    assert!(!plugin.is_running());
    assert!(plugin.finish_start(Ok(())).is_ok());
    assert!(plugin.is_running());
    plugin.stop();
    assert!(!plugin.is_running());
}

#[test]
fn test_title_filter() {
    let plugin = WindowEventPlugin::new("test").with_title_filter("notepad.*");

    assert!(plugin.passes_filters("notepad.exe", "notepad.exe"));
    assert!(plugin.passes_filters("notepad++", "notepad++.exe"));
    assert!(!plugin.passes_filters("chrome.exe", "chrome.exe"));
}

#[test]
fn test_process_filter() {
    let plugin = WindowEventPlugin::new("test").with_process_filter("chrome.*");

    assert!(plugin.passes_filters("Google Chrome", "chrome.exe"));
    assert!(!plugin.passes_filters("Notepad", "notepad.exe"));
}

#[test]
fn test_combined_filters() {
    let plugin = WindowEventPlugin::new("test")
        .with_title_filter(".*Chrome.*")
        .with_process_filter("chrome.*");

    assert!(plugin.passes_filters("Google Chrome", "chrome.exe"));
    assert!(!plugin.passes_filters("Notepad", "notepad.exe"));
    assert!(!plugin.passes_filters("Google Chrome", "firefox.exe"));
}

#[test]
fn focus_reports_the_window_that_lost_it_first() {
    let mut plugin = WindowEventPlugin::new("win").with_title_filter("(").with_process_filter(".*");
    assert_eq!(plugin.title_filter, None);
    assert_eq!(plugin.process_filter, Some(".*".to_string()));
    assert_eq!(plugin.window_losing_focus(1), None);
    let first = plugin.on_focus(1, "One", "one.exe", 11, None);
    assert_eq!(first.len(), 1);
    assert_eq!(first[0].kind, EventKind::WindowFocused { hwnd: 1, title: "One".to_string() });
    assert_eq!(first[0].metadata.get("process_id"), Some(&"11".to_string()));
    assert_eq!(first[0].metadata.get("process_name"), Some(&"one.exe".to_string()));
    assert_eq!(plugin.previous_hwnd, Some(1));
    assert_eq!(plugin.window_losing_focus(1), None);
    assert_eq!(plugin.window_losing_focus(2), Some(1));
    let second = plugin.on_focus(2, "Two", "two.exe", 22, Some("One"));
    assert_eq!(second.len(), 2);
    assert_eq!(second[0].kind, EventKind::WindowUnfocused { hwnd: 1, title: "One".to_string() });
    assert_eq!(second[0].metadata.get("window_title"), Some(&"One".to_string()));
    assert_eq!(second[1].kind, EventKind::WindowFocused { hwnd: 2, title: "Two".to_string() });
    let third = plugin.on_focus(3, "Three", "three.exe", 33, None);
    assert_eq!(third[0].kind, EventKind::WindowUnfocused { hwnd: 2, title: String::new() });
    let again = plugin.on_focus(3, "Three", "three.exe", 33, None);
    assert_eq!(again.len(), 1);

    let mut picky = WindowEventPlugin::new("win").with_title_filter("^Keep");
    assert!(picky.on_focus(1, "Drop", "x", 1, None).is_empty());
    assert_eq!(picky.previous_hwnd, None);
    assert!(picky.on_created(5, "Drop", "x", 1).is_none());
    let made = picky.on_created(5, "Keep me", "x", 9).unwrap();
    assert_eq!(
        made.kind,
        EventKind::WindowCreated { hwnd: 5, title: "Keep me".to_string(), process_id: 9 }
    );
    let gone = picky.on_destroyed(5, Some("Drop"));
    assert_eq!(gone.kind, EventKind::WindowDestroyed { hwnd: 5 });
    assert_eq!(gone.metadata.get("window_title"), Some(&"Drop".to_string()));
    assert_eq!(picky.on_destroyed(6, None).metadata.len(), 0);
}

#[test]
fn window_observer_lifecycle_and_process_names() {
    let mut plugin = WindowEventPlugin::new("test_window");
    assert!(!plugin.is_running());
    assert_eq!(plugin.start_decision(), StartDecision::Launch);
    match plugin.finish_start(false) {
        Err(PluginError::Initialization(m)) => assert_eq!(m, "Failed to install Windows event hooks"),
        _ => panic!("hooks"),
    }
    assert!(plugin.finish_start(true).is_ok());
    assert!(plugin.is_running());
    assert_eq!(plugin.start_decision(), StartDecision::AlreadyRunning);
    plugin.stop();
    assert!(!plugin.is_running());
    assert_eq!(resolve_process_name(0, Some("C:\\x.exe")), "");
    assert_eq!(resolve_process_name(4, None), "PID:4");
    assert_eq!(resolve_process_name(4, Some("C:\\Windows\\notepad.exe")), "notepad.exe");
    assert_eq!(resolve_process_name(4, Some("notepad.exe")), "notepad.exe");
    assert_eq!(resolve_process_name(4, Some("C:\\dir\\")), "");
}

#[test]
fn the_timer_ticks() {
    let timer = TimerPlugin::new("clock");
    assert_eq!(timer.interval_seconds, 60);
    let fast = timer.with_interval(1);
    assert_eq!(fast.interval_seconds, 1);
    let tick = fast.tick();
    assert_eq!(tick.kind, EventKind::TimerTick);
    assert_eq!(tick.source, "clock");
    assert_eq!(tick.metadata.len(), 0);
}
