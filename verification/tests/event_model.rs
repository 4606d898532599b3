use win_event_engine::event::{Event, EventKind, Metadata};

#[test]
fn test_event_creation() {
    let event = Event::new(
        EventKind::FileCreated {
            path: "test.txt".to_string(),
        },
        "test_plugin",
    );

    assert_eq!(event.source, "test_plugin");
    match event.kind {
        EventKind::FileCreated { path } => {
            assert_eq!(path, "test.txt".to_string());
        }
        _ => panic!("Wrong event kind"),
    }
}

#[test]
fn test_event_with_metadata() {
    let event = Event::new(EventKind::TimerTick, "test_plugin")
        .with_metadata("key1", "value1")
        .with_metadata("key2", "value2");

    assert_eq!(event.metadata.get("key1"), Some(&"value1".to_string()));
    assert_eq!(event.metadata.get("key2"), Some(&"value2".to_string()));
}

#[test]
fn metadata_keeps_one_value_per_key() {
    let mut metadata = Metadata::new();
    metadata.insert("a".to_string(), "1".to_string());
    metadata.insert("b".to_string(), "2".to_string());
    metadata.insert("a".to_string(), "3".to_string());
    assert_eq!(metadata.len(), 2);
    assert_eq!(metadata.get("a"), Some(&"3".to_string()));
    assert_eq!(metadata.get("b"), Some(&"2".to_string()));
    assert_eq!(metadata.get("c"), None);
    assert!(metadata.contains_key("b"));
    assert!(!metadata.contains_key("c"));
    let copy = metadata.clone();
    assert_eq!(copy.entries(), metadata.entries());
}

#[test]
fn new_events_differ_in_identity_and_start_without_metadata() {
    let first = Event::new(EventKind::TimerTick, "timer");
    let second = Event::new(EventKind::TimerTick, "timer");
    assert_ne!(first.id, second.id);
    assert!(second.timestamp >= first.timestamp);
    assert_eq!(first.metadata.len(), 0);
}

#[test]
fn kind_names_are_the_variant_names() {
    assert_eq!(EventKind::TimerTick.name(), "TimerTick");
    assert_eq!(
        EventKind::FileCreated { path: "a".to_string() }.name(),
        "FileCreated"
    );
    assert_eq!(EventKind::WindowDestroyed { hwnd: 7 }.name(), "WindowDestroyed");
    assert_eq!(
        EventKind::ThreadDestroyed { pid: 1, tid: 2 }.name(),
        "ThreadDestroyed"
    );
}
