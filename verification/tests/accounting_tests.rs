use std::sync::{Arc, Mutex};
use win_event_engine::accounting::{dispatch_recorded, dispatch_timed, record_dispatch, Triggered};
use win_event_engine::actions::{Action, ActionError, ActionExecutor, ActionResult, Outcome};
use win_event_engine::engine::action_name;
use win_event_engine::event::{Event, EventKind};
use win_event_engine::metrics::collector::MetricsCollector;
use win_event_engine::metrics::keys::Labels;
use win_event_engine::rules::{EventKindMatcher, FilePatternMatcher, Matcher, Rule};

struct Scripted {
    fails: bool,
    calls: Arc<Mutex<Vec<String>>>,
    tag: String,
}

impl Action for Scripted {
    fn execute(&self, _event: &Event) -> Outcome {
        self.calls.lock().unwrap().push(self.tag.clone());
        if self.fails {
            Err(ActionError::Execution("boom".to_string()))
        } else {
            Ok(ActionResult::Success { message: Some(self.tag.clone()) })
        }
    }

    fn description(&self) -> String {
        self.tag.clone()
    }
}

fn labels(pairs: &[(&str, &str)]) -> Labels {
    let mut labels = Labels::new();
    for (key, value) in pairs {
        labels.insert(key, value);
    }
    labels
}

fn on_tick(name: &str) -> Rule {
    Rule::new(name, Matcher::EventKind(EventKindMatcher { kind: EventKind::TimerTick }))
}

fn setup() -> (Vec<Rule>, ActionExecutor, Arc<Mutex<Vec<String>>>) {
    let rules = vec![
        on_tick("first"),
        on_tick("off").with_enabled(false),
        Rule::new("files", Matcher::FilePattern(FilePatternMatcher::created())),
        on_tick("third"),
        on_tick("orphan"),
    ];
    let calls = Arc::new(Mutex::new(Vec::new()));
    let mut executor = ActionExecutor::new();
    for (place, fails) in [(0usize, false), (1, false), (2, false), (3, true)] {
        let action = Scripted { fails, calls: calls.clone(), tag: format!("a{}", place) };
        executor.register(&action_name(place), Box::new(action));
    }
    (rules, executor, calls)
}

#[test]
fn timed_dispatch_runs_each_matching_rule_once_in_order() {
    let (rules, executor, calls) = setup();
    let triggered = dispatch_timed(&rules, &executor, &Event::new(EventKind::TimerTick, "t"));
    assert_eq!(triggered.iter().map(|t| t.place).collect::<Vec<_>>(), vec![0, 3, 4]);
    assert_eq!(
        triggered.iter().map(|t| t.rule.clone()).collect::<Vec<_>>(),
        vec!["first", "third", "orphan"]
    );
    assert!(matches!(&triggered[0].outcome, Ok(ActionResult::Success { message: Some(m) }) if m == "a0"));
    assert!(matches!(&triggered[1].outcome, Err(ActionError::Execution(m)) if m == "boom"));
    assert!(matches!(
        &triggered[2].outcome,
        Err(ActionError::Configuration(m)) if m == "Action 'rule_4_action' not found"
    ));
    assert_eq!(*calls.lock().unwrap(), vec!["a0".to_string(), "a3".to_string()]);
}

#[test]
fn a_dispatched_event_is_counted_with_its_rules_and_actions() {
    let (rules, executor, calls) = setup();
    let mut metrics = MetricsCollector::new();
    let tick = Event::new(EventKind::TimerTick, "clock");
    let triggered = dispatch_recorded(&rules, &executor, &tick, &mut metrics);
    assert_eq!(triggered.len(), 3);
    assert_eq!(calls.lock().unwrap().len(), 2);

    let events = labels(&[("plugin", "clock"), ("type", "TimerTick")]);
    assert_eq!(metrics.get_counter("events_total", &events), Some(1));
    for (rule, evaluated, matched) in [
        ("first", Some(1), Some(1)),
        ("off", None, None),
        ("files", Some(1), None),
        ("third", Some(1), Some(1)),
        ("orphan", Some(1), Some(1)),
    ] {
        let of_rule = labels(&[("rule", rule)]);
        assert_eq!(metrics.get_counter("rules_evaluated_total", &of_rule), evaluated, "{}", rule);
        assert_eq!(metrics.get_counter("rules_matched_total", &of_rule), matched, "{}", rule);
    }
    for (action, status, count) in [
        ("rule_0_action", "success", Some(1)),
        ("rule_0_action", "error", None),
        ("rule_3_action", "error", Some(1)),
        ("rule_4_action", "error", Some(1)),
        ("rule_2_action", "success", None),
    ] {
        let of_action = labels(&[("action", action), ("status", status)]);
        assert_eq!(metrics.get_counter("actions_executed_total", &of_action), count, "{}", action);
        let stats = metrics.get_histogram_stats("actions_execution_duration_seconds", &of_action);
        assert_eq!(stats.map(|s| s.count), count, "{}", action);
    }
    let processing = metrics
        .get_histogram_stats("events_processing_duration_seconds", &Labels::new())
        .unwrap();
    assert_eq!(processing.count, 1);

    dispatch_recorded(&rules, &executor, &tick, &mut metrics);
    assert_eq!(metrics.get_counter("events_total", &events), Some(2));
    assert_eq!(metrics.get_counter("rules_matched_total", &labels(&[("rule", "third")])), Some(2));
    assert_eq!(calls.lock().unwrap().len(), 4);
}

#[test]
fn recorded_durations_are_those_handed_in() {
    let rules = vec![on_tick("only"), on_tick("silent").with_enabled(false)];
    let triggered = vec![
        Triggered {
            place: 0,
            rule: "only".to_string(),
            outcome: Ok(ActionResult::Success { message: None }),
            nanos: 1_500,
        },
        Triggered {
            place: 0,
            rule: "only".to_string(),
            outcome: Ok(ActionResult::Skipped { reason: "r".to_string() }),
            nanos: 500,
        },
        Triggered { place: 7, rule: "far".to_string(), outcome: Err(ActionError::Timeout), nanos: 9 },
    ];
    let mut metrics = MetricsCollector::new();
    let event = Event::new(EventKind::TimerTick, "t");
    record_dispatch(&mut metrics, &rules, &event, &triggered, 4_000);

    assert_eq!(metrics.get_counter("rules_evaluated_total", &labels(&[("rule", "only")])), Some(1));
    assert_eq!(metrics.get_counter("rules_evaluated_total", &labels(&[("rule", "silent")])), None);
    assert_eq!(metrics.get_counter("rules_matched_total", &labels(&[("rule", "only")])), Some(2));
    assert_eq!(metrics.get_counter("rules_matched_total", &labels(&[("rule", "far")])), Some(1));
    let fine = labels(&[("action", "rule_0_action"), ("status", "success")]);
    assert_eq!(metrics.get_counter("actions_executed_total", &fine), Some(2));
    let stats = metrics.get_histogram_stats("actions_execution_duration_seconds", &fine).unwrap();
    assert_eq!((stats.count, stats.sum, stats.min, stats.max), (2, 2_000, 500, 1_500));
    let late = labels(&[("action", "rule_7_action"), ("status", "error")]);
    assert_eq!(metrics.get_counter("actions_executed_total", &late), Some(1));
    let stats = metrics.get_histogram_stats("actions_execution_duration_seconds", &late).unwrap();
    assert_eq!((stats.count, stats.sum), (1, 9));
    let whole = metrics
        .get_histogram_stats("events_processing_duration_seconds", &Labels::new())
        .unwrap();
    assert_eq!((whole.count, whole.sum, whole.min, whole.max), (1, 4_000, 4_000, 4_000));
}
