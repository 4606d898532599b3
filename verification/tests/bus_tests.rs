use std::sync::{Arc, Mutex};
use win_event_engine::actions::{Action, ActionExecutor, ActionResult, Outcome};
use win_event_engine::bus::{
    account, add, create_event_bus, emit, is_valid_capacity, open_bus_for, open_event_bus,
    usable_capacity, EmitOutcome, TrySend,
};
use win_event_engine::engine::{action_name, pump};
use win_event_engine::event::{Event, EventKind};
use win_event_engine::rules::{EventKindMatcher, Matcher, Rule};
use win_event_engine::metrics::collector::MetricsCollector;
use win_event_engine::metrics::keys::Labels;

#[test]
fn it_works() {
    let result = add(2, 2);
    assert_eq!(result, 4);
}

#[test]
fn an_unusable_capacity_falls_back_to_the_default() {
    assert_eq!(usable_capacity(0), 1000);
    assert_eq!(usable_capacity(1), 1);
    assert_eq!(usable_capacity(64), 64);
    assert_eq!(usable_capacity(usize::MAX / 8), usize::MAX / 8);
    assert_eq!(usable_capacity(usize::MAX), 1000);
    let (sender, receiver) = open_bus_for(2);
    assert_eq!((sender.max_capacity(), receiver.max_capacity()), (2, 2));
    let (sender, receiver) = open_bus_for(0);
    assert_eq!((sender.max_capacity(), receiver.max_capacity()), (1000, 1000));
    let (sender, receiver) = create_event_bus(7);
    assert_eq!((sender.max_capacity(), receiver.max_capacity()), (7, 7));
    let (sender, receiver) = open_event_bus(3).unwrap();
    assert_eq!((sender.max_capacity(), receiver.max_capacity()), (3, 3));
}

#[test]
fn capacity_must_be_positive() {
    assert!(!is_valid_capacity(0));
    assert!(is_valid_capacity(1));
    assert!(is_valid_capacity(1000));
    assert!(is_valid_capacity(usize::MAX / 8));
    assert!(!is_valid_capacity(usize::MAX / 8 + 1));
}

struct Recording {
    seen: Arc<Mutex<Vec<u32>>>,
}

impl Action for Recording {
    fn execute(&self, event: &Event) -> Outcome {
        if let EventKind::ProcessStopped { pid, .. } = &event.kind {
            self.seen.lock().unwrap().push(*pid);
        }
        Ok(ActionResult::Success { message: None })
    }

    fn description(&self) -> String {
        "recording".to_string()
    }
}

fn stopped(pid: u32) -> Event {
    Event::new(EventKind::ProcessStopped { pid, name: String::new(), exit_code: None }, "p")
}

fn recorder() -> (Vec<Rule>, ActionExecutor, Arc<Mutex<Vec<u32>>>) {
    let template = EventKind::ProcessStopped { pid: 0, name: String::new(), exit_code: None };
    let rules = vec![Rule::new("all", Matcher::EventKind(EventKindMatcher { kind: template }))];
    let seen = Arc::new(Mutex::new(Vec::new()));
    let mut executor = ActionExecutor::new();
    executor.register(&action_name(0), Box::new(Recording { seen: seen.clone() }));
    (rules, executor, seen)
}

#[test]
fn every_sent_event_is_received_once_in_order() {
    let (sender, mut receiver) = create_event_bus(8);
    let mut metrics = MetricsCollector::new();
    for i in 0..5u32 {
        assert_eq!(emit(true, &sender, stopped(i), &mut metrics), EmitOutcome::Sent);
    }
    let (rules, executor, seen) = recorder();
    let report = pump(&rules, &executor, &mut receiver, &mut metrics, 100);
    assert_eq!((report.processed, report.triggered, report.disconnected), (5, 5, false));
    assert_eq!(*seen.lock().unwrap(), vec![0, 1, 2, 3, 4]);
    let mut of_kind = Labels::new();
    of_kind.insert("plugin", "p");
    of_kind.insert("type", "ProcessStopped");
    assert_eq!(metrics.get_counter("events_total", &of_kind), Some(5));
    let mut of_rule = Labels::new();
    of_rule.insert("rule", "all");
    assert_eq!(metrics.get_counter("rules_evaluated_total", &of_rule), Some(5));
    assert_eq!(metrics.get_counter("rules_matched_total", &of_rule), Some(5));
    let again = pump(&rules, &executor, &mut receiver, &mut metrics, 100);
    assert_eq!((again.processed, again.disconnected), (0, false));
    drop(sender);
    let closed = pump(&rules, &executor, &mut receiver, &mut metrics, 100);
    assert_eq!((closed.processed, closed.disconnected), (0, true));
    assert_eq!(seen.lock().unwrap().len(), 5);
}

#[test]
fn overflow_counts_drops() {
    let (sender, mut receiver) = create_event_bus(2);
    let mut metrics = MetricsCollector::new();
    let mut dropped = 0u64;
    for i in 0..100 {
        if emit(true, &sender, stopped(i), &mut metrics) == EmitOutcome::Dropped {
            dropped += 1;
        }
    }
    assert_eq!(dropped, 98);
    assert!(dropped >= 98);
    assert_eq!(metrics.get_counter("events_dropped_total", &Labels::new()), Some(98));
    let (rules, executor, seen) = recorder();
    let report = pump(&rules, &executor, &mut receiver, &mut metrics, 100);
    assert_eq!((report.processed, report.disconnected), (2, false));
    assert_eq!(*seen.lock().unwrap(), vec![0, 1]);
    assert_eq!(emit(true, &sender, stopped(100), &mut metrics), EmitOutcome::Sent);
    assert_eq!(metrics.get_counter("events_dropped_total", &Labels::new()), Some(98));
}

#[test]
fn a_stopped_plugin_does_not_touch_the_bus() {
    let (sender, mut receiver) = create_event_bus(1);
    let mut metrics = MetricsCollector::new();
    assert_eq!(emit(false, &sender, stopped(1), &mut metrics), EmitOutcome::Suppressed);
    let (rules, executor, seen) = recorder();
    assert_eq!(pump(&rules, &executor, &mut receiver, &mut metrics, 10).processed, 0);
    assert!(seen.lock().unwrap().is_empty());
    assert_eq!(metrics.get_counter("events_dropped_total", &Labels::new()), None);
}

#[test]
fn a_full_bus_drops_and_a_closed_one_reports_it() {
    let (sender, receiver) = create_event_bus(1);
    let mut metrics = MetricsCollector::new();
    assert_eq!(emit(true, &sender, stopped(1), &mut metrics), EmitOutcome::Sent);
    assert_eq!(emit(true, &sender, stopped(2), &mut metrics), EmitOutcome::Dropped);
    assert_eq!(metrics.get_counter("events_dropped_total", &Labels::new()), Some(1));
    drop(receiver);
    assert_eq!(emit(true, &sender, stopped(3), &mut metrics), EmitOutcome::Closed);
    assert_eq!(metrics.get_counter("events_dropped_total", &Labels::new()), Some(1));
}

#[test]
fn accounting_follows_the_answer_of_the_bus() {
    let mut metrics = MetricsCollector::new();
    assert_eq!(account(TrySend::Sent, "p", "ProcessStopped", &mut metrics), EmitOutcome::Sent);
    assert_eq!(account(TrySend::Closed(stopped(1)), "p", "ProcessStopped", &mut metrics), EmitOutcome::Closed);
    assert_eq!(metrics.get_counter("events_dropped_total", &Labels::new()), None);
    assert_eq!(account(TrySend::Full(stopped(2)), "p", "ProcessStopped", &mut metrics), EmitOutcome::Dropped);
    assert_eq!(account(TrySend::Full(stopped(3)), "p", "ProcessStopped", &mut metrics), EmitOutcome::Dropped);
    assert_eq!(metrics.get_counter("events_dropped_total", &Labels::new()), Some(2));
    let mut generated = Labels::new();
    generated.insert("plugin", "p");
    generated.insert("type", "ProcessStopped");
    assert_eq!(metrics.get_counter("plugins_events_generated_total", &generated), Some(1));
}

#[test]
fn sent_events_are_counted_for_their_plugin() {
    let (sender, _receiver) = create_event_bus(2);
    let mut metrics = MetricsCollector::new();
    let mut generated = Labels::new();
    generated.insert("plugin", "p");
    generated.insert("type", "ProcessStopped");
    assert_eq!(emit(false, &sender, stopped(0), &mut metrics), EmitOutcome::Suppressed);
    assert_eq!(metrics.get_counter("plugins_events_generated_total", &generated), None);
    assert_eq!(emit(true, &sender, stopped(1), &mut metrics), EmitOutcome::Sent);
    assert_eq!(emit(true, &sender, stopped(2), &mut metrics), EmitOutcome::Sent);
    assert_eq!(emit(true, &sender, stopped(3), &mut metrics), EmitOutcome::Dropped);
    assert_eq!(metrics.get_counter("plugins_events_generated_total", &generated), Some(2));
    assert_eq!(metrics.get_counter("events_dropped_total", &Labels::new()), Some(1));
}

#[test]
fn buses_open_for_usable_capacities_only() {
    assert!(open_event_bus(0).is_none());
    assert!(open_event_bus(usize::MAX).is_none());
    let (sender, mut receiver) = open_event_bus(3).unwrap();
    let mut metrics = MetricsCollector::new();
    assert_eq!(emit(true, &sender, stopped(9), &mut metrics), EmitOutcome::Sent);
    let (rules, executor, seen) = recorder();
    assert_eq!(pump(&rules, &executor, &mut receiver, &mut metrics, 1).processed, 1);
    assert_eq!(*seen.lock().unwrap(), vec![9]);
}
