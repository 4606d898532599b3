use win_event_engine::event::{Event, EventKind};
use win_event_engine::rules::{
    matches_event_kind, matching_rules, CompositeMatcher, EventKindMatcher, FilePatternMatcher,
    MatchOperator, Matcher, Rule, RuleMatcher, WindowEventType, WindowMatcher,
};

fn created(path: &str) -> Event {
    Event::new(EventKind::FileCreated { path: path.to_string() }, "test")
}

#[test]
fn test_simple_event_kind_matcher() {
    let matcher = EventKindMatcher {
        kind: EventKind::TimerTick,
    };
    let event = Event::new(EventKind::TimerTick, "test");
    assert!(matcher.matches(&event));

    let event2 = Event::new(
        EventKind::FileCreated {
            path: "test.txt".to_string(),
        },
        "test",
    );
    assert!(!matcher.matches(&event2));
}

#[test]
fn test_file_pattern_matcher() {
    let matcher = FilePatternMatcher::created()
        .with_file_pattern("*.txt")
        .unwrap();

    let event = Event::new(
        EventKind::FileCreated {
            path: "/tmp/test.txt".to_string(),
        },
        "test",
    );
    assert!(matcher.matches(&event));

    let event2 = Event::new(
        EventKind::FileCreated {
            path: "/tmp/test.log".to_string(),
        },
        "test",
    );
    assert!(!matcher.matches(&event2));

    let event3 = Event::new(
        EventKind::FileModified {
            path: "/tmp/test.txt".to_string(),
        },
        "test",
    );
    assert!(!matcher.matches(&event3));
}

#[test]
fn test_composite_matcher_and() {
    let matcher1 = Matcher::FilePattern(FilePatternMatcher::created());
    let matcher2 = Matcher::FilePattern(
        FilePatternMatcher::created()
            .with_file_pattern("*.log")
            .unwrap(),
    );

    let composite = CompositeMatcher {
        matchers: vec![matcher1, matcher2],
        operator: MatchOperator::And,
    };

    let event = Event::new(
        EventKind::FileCreated {
            path: "/tmp/app.log".to_string(),
        },
        "test",
    );
    assert!(composite.matches(&event));

    let event2 = Event::new(
        EventKind::FileCreated {
            path: "/tmp/app.txt".to_string(),
        },
        "test",
    );
    assert!(!composite.matches(&event2));
}

#[test]
fn test_rule_with_disabled() {
    let matcher = Matcher::EventKind(EventKindMatcher {
        kind: EventKind::TimerTick,
    });
    let rule = Rule::new("test_rule", matcher).with_enabled(false);

    let event = Event::new(EventKind::TimerTick, "test");
    assert!(!rule.matches(&event));
}

#[test]
fn test_rule_with_description() {
    let matcher = Matcher::EventKind(EventKindMatcher {
        kind: EventKind::TimerTick,
    });
    let rule = Rule::new("test_rule", matcher).with_description("A test rule");

    assert_eq!(rule.description, Some("A test rule".to_string()));
}

#[test]
fn composite_or_takes_any_part_and_empty_composites_follow_their_operator() {
    let txt = Matcher::FilePattern(FilePatternMatcher::created().with_file_pattern("*.txt").unwrap());
    let log = Matcher::FilePattern(FilePatternMatcher::created().with_file_pattern("*.log").unwrap());
    let either = CompositeMatcher { matchers: vec![txt, log], operator: MatchOperator::Or };
    assert!(either.matches(&created("/tmp/a.txt")));
    assert!(either.matches(&created("/tmp/a.log")));
    assert!(!either.matches(&created("/tmp/a.bin")));

    let all_of_none = CompositeMatcher { matchers: vec![], operator: MatchOperator::And };
    let any_of_none = CompositeMatcher { matchers: vec![], operator: MatchOperator::Or };
    assert!(all_of_none.matches(&created("x")));
    assert!(!any_of_none.matches(&created("x")));
}

#[test]
fn nested_composites_and_deep_copies_agree() {
    let inner = Matcher::Composite(CompositeMatcher {
        matchers: vec![
            Matcher::EventKind(EventKindMatcher { kind: EventKind::TimerTick }),
            Matcher::FilePattern(FilePatternMatcher::any().with_file_pattern("*.toml").unwrap()),
        ],
        operator: MatchOperator::Or,
    });
    let outer = Matcher::Composite(CompositeMatcher {
        matchers: vec![inner],
        operator: MatchOperator::And,
    });
    let copy = outer.clone();
    let events = vec![
        Event::new(EventKind::TimerTick, "t"),
        created("/etc/app.toml"),
        created("/etc/app.txt"),
        Event::new(EventKind::FileDeleted { path: "x.toml".to_string() }, "t"),
    ];
    let expected = vec![true, true, false, true];
    for (event, want) in events.iter().zip(expected.iter()) {
        assert_eq!(outer.matches(event), *want);
        assert_eq!(copy.matches(event), *want);
    }
    assert_eq!(
        outer.description(),
        "((Event kind matches TimerTick OR File Any event matching '*.toml'))"
    );
}

#[test]
fn file_matcher_with_created_and_txt_takes_exactly_created_txt_files() {
    let matcher = FilePatternMatcher::created().with_file_pattern("*.txt").unwrap();
    assert!(matcher.matches(&created("notes.txt")));
    assert!(matcher.matches(&created("/deep/down/notes.txt")));
    assert!(!matcher.matches(&created("/deep/down.txt/notes.md")));
    assert!(!matcher.matches(&created("/tmp/..")));
    assert!(!matcher.matches(&Event::new(
        EventKind::FileDeleted { path: "notes.txt".to_string() },
        "t"
    )));
    assert!(!matcher.matches(&Event::new(EventKind::TimerTick, "t")));
    assert_eq!(matcher.description(), "File Created event matching '*.txt'");

    let named = FilePatternMatcher::created().with_file_pattern("notes.*").unwrap();
    assert!(named.matches(&created("/deep/down/notes.txt")));
    assert!(named.matches(&created("notes.md")));
    assert!(!named.matches(&created("/notes.d/other.txt")));
}

#[test]
fn invalid_globs_are_refused() {
    assert!(FilePatternMatcher::created().with_file_pattern("[").is_err());
    assert!(FilePatternMatcher::created().with_path_pattern("a***b").is_err());
    let with_path = FilePatternMatcher::any().with_path_pattern("/tmp/*").unwrap();
    assert!(with_path.matches(&created("/tmp/x")));
    assert!(!with_path.matches(&created("/var/x")));
    assert_eq!(with_path.path_pattern(), Some(&"/tmp/*".to_string()));
    assert_eq!(with_path.file_pattern(), None);
}

#[test]
fn kinds_match_by_variant_and_files_by_path() {
    let a = EventKind::FileCreated { path: "a".to_string() };
    let b = EventKind::FileCreated { path: "b".to_string() };
    assert!(matches_event_kind(&a, &a.clone()));
    assert!(!matches_event_kind(&a, &b));
    let started = EventKind::ProcessStarted {
        pid: 0,
        parent_pid: 0,
        name: String::new(),
        path: String::new(),
        command_line: String::new(),
        session_id: 0,
        user: String::new(),
    };
    let other = EventKind::ProcessStarted {
        pid: 42,
        parent_pid: 1,
        name: "x.exe".to_string(),
        path: "c:\\x.exe".to_string(),
        command_line: "x".to_string(),
        session_id: 3,
        user: "u".to_string(),
    };
    assert!(matches_event_kind(&started, &other));
    assert!(!matches_event_kind(&started, &EventKind::TimerTick));
    assert!(matches_event_kind(
        &EventKind::WindowFocused { hwnd: 1, title: "a".to_string() },
        &EventKind::WindowFocused { hwnd: 2, title: "b".to_string() }
    ));
}

#[test]
fn window_matcher_compares_without_case() {
    let matcher = WindowMatcher {
        event_type: WindowEventType::Focused,
        title_contains: Some("NotePad".to_string()),
        process_name: Some("EXE".to_string()),
    };
    let focused = Event::new(
        EventKind::WindowFocused { hwnd: 1, title: "Untitled - notepad".to_string() },
        "w",
    )
    .with_metadata("process_name", "notepad.exe");
    assert!(matcher.matches(&focused));
    let without_process = Event::new(
        EventKind::WindowFocused { hwnd: 1, title: "Untitled - notepad".to_string() },
        "w",
    );
    assert!(!matcher.matches(&without_process));
    let unfocused = Event::new(
        EventKind::WindowUnfocused { hwnd: 1, title: "notepad".to_string() },
        "w",
    )
    .with_metadata("process_name", "notepad.exe");
    assert!(!matcher.matches(&unfocused));
    assert_eq!(
        matcher.description(),
        "Window Focused event with title containing 'NotePad' from process 'EXE'"
    );
}

#[test]
fn triggered_rules_come_once_each_in_list_order() {
    let rules = vec![
        Rule::new("a", Matcher::EventKind(EventKindMatcher { kind: EventKind::TimerTick })),
        Rule::new(
            "b",
            Matcher::FilePattern(FilePatternMatcher::created()),
        ),
        Rule::new("c", Matcher::EventKind(EventKindMatcher { kind: EventKind::TimerTick }))
            .with_enabled(false),
        Rule::new("d", Matcher::EventKind(EventKindMatcher { kind: EventKind::TimerTick })),
    ];
    let tick = Event::new(EventKind::TimerTick, "t");
    assert_eq!(matching_rules(&rules, &tick), vec![0, 3]);
    assert_eq!(matching_rules(&rules, &created("x")), vec![1]);
    let copy = rules[0].clone();
    assert_eq!(copy.name, "a");
    assert!(copy.matches(&tick));
}
