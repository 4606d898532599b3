//! Dispatch with bookkeeping: which actions an event sets off, how long
//! each took, and what that adds to the metrics.

use crate::actions::{ActionExecutor, Outcome};
use crate::engine::{action_name, action_name_text};
use crate::event::{capture_instant, Event};
use crate::metrics::clock::nanos_since;
use crate::metrics::collector::{
    lemma_never_decrease_chain, never_decrease, number_at, samples_at, saturating_sum,
    MetricsCollector,
};
use crate::metrics::keys::key_text;
use crate::metrics::record::{
    one_label, record_action_execution, record_event, record_event_processing_duration,
    record_rule_evaluation, record_rule_match, sampled, status_text, two_labels,
};
use crate::metrics::store::Sample;
use crate::rules::{matching_indices, Rule};
use vstd::prelude::*;

verus! {

/// One action that an event set off.
#[derive(Debug)]
pub struct Triggered {
    /// The place of the rule in the rule list.
    pub place: usize,
    /// The name of the rule.
    pub rule: String,
    /// What the action of the rule returned.
    pub outcome: Outcome,
    /// How long the action ran, in nanoseconds.
    pub nanos: u64,
}

/// Whether `r` is what an event sets off among the first `upto` rules:
/// one entry for each of them that accepts the event, in the order of the
/// rule list, with the place and the name of the rule, and the outcome of
/// running the action registered as `rule_<place>_action`.
pub open spec fn is_timed_dispatch(
    rules: Seq<Rule>,
    executor: &ActionExecutor,
    event: &Event,
    r: Seq<Triggered>,
    upto: int,
) -> bool {
    let places = matching_indices(rules, event, upto);
    &&& r.len() == places.len()
    &&& forall|k: int|
        0 <= k < r.len() ==> {
            &&& (#[trigger] r[k]).place == places[k]
            &&& r[k].place < upto
            &&& r[k].rule@ == rules[r[k].place as int].name@
            &&& executor.spec_execute(action_name_text(r[k].place as nat), event, r[k].outcome)
        }
}

/// Runs the action of each rule that accepts the event, once, in the
/// order of the rule list, and measures how long each takes.
pub fn dispatch_timed(rules: &Vec<Rule>, executor: &ActionExecutor, event: &Event) -> (r: Vec<
    Triggered,
>)
    ensures
        is_timed_dispatch(rules@, executor, event, r@, rules@.len() as int),
{
    let mut triggered: Vec<Triggered> = Vec::new();
    let mut i: usize = 0;
    while i < rules.len()
        invariant
            i <= rules@.len(),
            is_timed_dispatch(rules@, executor, event, triggered@, i as int),
        decreases rules@.len() - i,
    {
        let ghost before = triggered@;
        if rules[i].matches(event) {
            let name = action_name(i);
            let begun = capture_instant();
            let outcome = executor.execute(name.as_str(), event);
            let nanos = nanos_since(&begun);
            triggered.push(Triggered { place: i, rule: rules[i].name.clone(), outcome, nanos });
            proof {
                let places = matching_indices(rules@, event, i + 1);
                assert(places == matching_indices(rules@, event, i as int).push(i));
                assert forall|k: int| 0 <= k < triggered@.len() implies {
                    &&& (#[trigger] triggered@[k]).place == places[k]
                    &&& triggered@[k].place < i + 1
                    &&& triggered@[k].rule@ == rules@[triggered@[k].place as int].name@
                    &&& executor.spec_execute(
                        action_name_text(triggered@[k].place as nat),
                        event,
                        triggered@[k].outcome,
                    )
                } by {
                    if k < before.len() {
                        assert(triggered@[k] == before[k]);
                    }
                }
            }
        }
        i = i + 1;
    }
    triggered
}

/// The counters with the one under `key` raised by one; it starts at zero
/// and stays at the largest count.
pub open spec fn raised(counters: Map<Seq<char>, u64>, key: Seq<char>) -> Map<Seq<char>, u64> {
    counters.insert(key, saturating_sum(number_at(counters, key), 1))
}

/// The key of the counter of events of the event's source and kind.
pub open spec fn event_key(event: &Event) -> Seq<char> {
    key_text(
        "events_total"@,
        two_labels("plugin"@, event.source@, "type"@, event.kind.spec_name()),
    )
}

/// The key of the counter of evaluations of a rule.
pub open spec fn evaluation_key(rule: Seq<char>) -> Seq<char> {
    key_text("rules_evaluated_total"@, one_label("rule"@, rule))
}

/// The key of the counter of matches of a rule.
pub open spec fn match_key(rule: Seq<char>) -> Seq<char> {
    key_text("rules_matched_total"@, one_label("rule"@, rule))
}

/// The labels of the metrics of the action of the rule at a place, by
/// whether it succeeded.
pub open spec fn action_labels(place: nat, success: bool) -> Seq<(Seq<char>, Seq<char>)> {
    two_labels("action"@, action_name_text(place), "status"@, status_text(success))
}

/// The key of the counter of runs of an action.
pub open spec fn action_key(place: nat, success: bool) -> Seq<char> {
    key_text("actions_executed_total"@, action_labels(place, success))
}

/// The key of the histogram of the running times of an action.
pub open spec fn duration_key(place: nat, success: bool) -> Seq<char> {
    key_text("actions_execution_duration_seconds"@, action_labels(place, success))
}

/// The key of the histogram of the times that processing an event took.
pub open spec fn processing_key() -> Seq<char> {
    key_text("events_processing_duration_seconds"@, Seq::empty())
}

/// The counters after one evaluation is counted for each enabled rule
/// among the first `n`.
pub open spec fn evaluated(counters: Map<Seq<char>, u64>, rules: Seq<Rule>, n: int) -> Map<
    Seq<char>,
    u64,
>
    decreases n,
{
    if n <= 0 || n > rules.len() {
        counters
    } else {
        let before = evaluated(counters, rules, n - 1);
        if rules[n - 1].enabled {
            raised(before, evaluation_key(rules[n - 1].name@))
        } else {
            before
        }
    }
}

/// The counters after a match of the rule and a run of the action are
/// counted for each of the first `n` actions set off.
pub open spec fn set_off(counters: Map<Seq<char>, u64>, triggered: Seq<Triggered>, n: int) -> Map<
    Seq<char>,
    u64,
>
    decreases n,
{
    if n <= 0 || n > triggered.len() {
        counters
    } else {
        let before = set_off(counters, triggered, n - 1);
        let t = triggered[n - 1];
        raised(raised(before, match_key(t.rule@)), action_key(t.place as nat, t.outcome is Ok))
    }
}

/// The counters after an event is dispatched: the event is counted under
/// its source and kind, each enabled rule is counted as evaluated, and
/// each action set off is counted as a match of its rule and as a run
/// under its status.
pub open spec fn counters_after(
    counters: Map<Seq<char>, u64>,
    rules: Seq<Rule>,
    event: &Event,
    triggered: Seq<Triggered>,
) -> Map<Seq<char>, u64> {
    set_off(
        evaluated(raised(counters, event_key(event)), rules, rules.len() as int),
        triggered,
        triggered.len() as int,
    )
}

/// The histograms after the running time of each of the first `n` actions
/// set off is noted, the one at place `k` at the time `times[k]`.
pub open spec fn timed(
    histograms: Map<Seq<char>, Seq<Sample>>,
    triggered: Seq<Triggered>,
    times: Seq<i64>,
    n: int,
) -> Map<Seq<char>, Seq<Sample>>
    decreases n,
{
    if n <= 0 || n > triggered.len() || n > times.len() {
        histograms
    } else {
        let before = timed(histograms, triggered, times, n - 1);
        let t = triggered[n - 1];
        let key = duration_key(t.place as nat, t.outcome is Ok);
        before.insert(key, samples_at(before, key).push((times[n - 1], t.nanos)))
    }
}

/// The histograms after an event is dispatched: the running time of each
/// action set off is noted, and then the time that processing the event
/// took, at the time `now`.
pub open spec fn histograms_at(
    histograms: Map<Seq<char>, Seq<Sample>>,
    triggered: Seq<Triggered>,
    times: Seq<i64>,
    now: i64,
    nanos: u64,
) -> Map<Seq<char>, Seq<Sample>> {
    let noted = timed(histograms, triggered, times, triggered.len() as int);
    noted.insert(processing_key(), samples_at(noted, processing_key()).push((now, nanos)))
}

/// Whether `after` is what the histograms are after an event is
/// dispatched, whatever the clock showed when each sample was taken.
pub open spec fn histograms_after(
    before: Map<Seq<char>, Seq<Sample>>,
    after: Map<Seq<char>, Seq<Sample>>,
    triggered: Seq<Triggered>,
    nanos: u64,
) -> bool {
    exists|times: Seq<i64>, now: i64|
        times.len() == triggered.len() && after == #[trigger] histograms_at(
            before,
            triggered,
            times,
            now,
            nanos,
        )
}

/// Whether `after` is what the metrics are after an event is dispatched.
pub open spec fn dispatch_recorded_in(
    before: &MetricsCollector,
    after: &MetricsCollector,
    rules: Seq<Rule>,
    event: &Event,
    triggered: Seq<Triggered>,
    nanos: u64,
) -> bool {
    &&& after.spec_counters() == counters_after(before.spec_counters(), rules, event, triggered)
    &&& never_decrease(before.spec_counters(), after.spec_counters())
    &&& histograms_after(before.spec_histograms(), after.spec_histograms(), triggered, nanos)
    &&& after.spec_gauges() == before.spec_gauges()
    &&& after.spec_metadata() == before.spec_metadata()
}

/// A key begins as the name of its metric begins.
proof fn lemma_key_begins(name: Seq<char>, labels: Seq<(Seq<char>, Seq<char>)>)
    requires
        name.len() > 0,
    ensures
        key_text(name, labels).len() > 0,
        key_text(name, labels)[0] == name[0],
{
}

/// Counting evaluations leaves a counter alone whose key begins with `e`.
proof fn lemma_evaluated_keeps(
    counters: Map<Seq<char>, u64>,
    rules: Seq<Rule>,
    n: int,
    key: Seq<char>,
)
    requires
        key.len() > 0,
        key[0] == 'e',
    ensures
        number_at(evaluated(counters, rules, n), key) == number_at(counters, key),
    decreases n,
{
    if n > 0 {
        lemma_evaluated_keeps(counters, rules, n - 1, key);
        if n <= rules.len() {
            reveal_strlit("rules_evaluated_total");
            lemma_key_begins("rules_evaluated_total"@, one_label("rule"@, rules[n - 1].name@));
            assert(evaluation_key(rules[n - 1].name@)[0] == 'r');
        }
    }
}

/// Counting matches and runs leaves a counter alone whose key begins with
/// `e`.
proof fn lemma_set_off_keeps(
    counters: Map<Seq<char>, u64>,
    triggered: Seq<Triggered>,
    n: int,
    key: Seq<char>,
)
    requires
        key.len() > 0,
        key[0] == 'e',
    ensures
        number_at(set_off(counters, triggered, n), key) == number_at(counters, key),
    decreases n,
{
    if n > 0 {
        lemma_set_off_keeps(counters, triggered, n - 1, key);
        if n <= triggered.len() {
            let t = triggered[n - 1];
            reveal_strlit("rules_matched_total");
            reveal_strlit("actions_executed_total");
            lemma_key_begins("rules_matched_total"@, one_label("rule"@, t.rule@));
            lemma_key_begins(
                "actions_executed_total"@,
                action_labels(t.place as nat, t.outcome is Ok),
            );
            assert(match_key(t.rule@)[0] == 'r');
            assert(action_key(t.place as nat, t.outcome is Ok)[0] == 'a');
        }
    }
}

/// Dispatching one event raises the counter of events of its source and
/// kind by exactly one, whatever rules there are and whatever the event
/// sets off; a counter that has reached the largest count stays there.
pub proof fn lemma_dispatch_counts_the_event(
    counters: Map<Seq<char>, u64>,
    rules: Seq<Rule>,
    event: &Event,
    triggered: Seq<Triggered>,
)
    ensures
        number_at(counters_after(counters, rules, event, triggered), event_key(event))
            == saturating_sum(number_at(counters, event_key(event)), 1),
        number_at(counters, event_key(event)) < u64::MAX ==> number_at(
            counters_after(counters, rules, event, triggered),
            event_key(event),
        ) == number_at(counters, event_key(event)) + 1,
{
    let key = event_key(event);
    reveal_strlit("events_total");
    lemma_key_begins(
        "events_total"@,
        two_labels("plugin"@, event.source@, "type"@, event.kind.spec_name()),
    );
    let counted = raised(counters, key);
    let tried = evaluated(counted, rules, rules.len() as int);
    lemma_evaluated_keeps(counted, rules, rules.len() as int, key);
    lemma_set_off_keeps(tried, triggered, triggered.len() as int, key);
}

/// Times beyond the first `n` do not count for the first `n` actions.
proof fn lemma_timed_prefix(
    histograms: Map<Seq<char>, Seq<Sample>>,
    triggered: Seq<Triggered>,
    times: Seq<i64>,
    more: Seq<i64>,
    n: int,
)
    requires
        0 <= n <= times.len() <= more.len(),
        forall|k: int| 0 <= k < times.len() ==> times[k] == more[k],
    ensures
        timed(histograms, triggered, times, n) == timed(histograms, triggered, more, n),
    decreases n,
{
    if n > 0 {
        lemma_timed_prefix(histograms, triggered, times, more, n - 1);
    }
}

/// Takes note of a dispatched event: counts the event under its source
/// and kind, an evaluation for each enabled rule, and for each action set
/// off a match of its rule and a run under its status; notes the running
/// time of each action and the time `nanos` that processing the event
/// took.
pub fn record_dispatch(
    metrics: &mut MetricsCollector,
    rules: &Vec<Rule>,
    event: &Event,
    triggered: &Vec<Triggered>,
    nanos: u64,
)
    ensures
        dispatch_recorded_in(old(metrics), final(metrics), rules@, event, triggered@, nanos),
        number_at(final(metrics).spec_counters(), event_key(event)) == saturating_sum(
            number_at(old(metrics).spec_counters(), event_key(event)),
            1,
        ),
{
    proof {
        lemma_dispatch_counts_the_event(old(metrics).spec_counters(), rules@, event, triggered@);
    }
    let ghost first = metrics.spec_counters();
    let ghost histograms = metrics.spec_histograms();
    let ghost gauges = metrics.spec_gauges();
    let ghost metadata = metrics.spec_metadata();
    let kind = event.kind.name();
    record_event(metrics, event.source.as_str(), kind.as_str());
    let ghost counted = metrics.spec_counters();
    let mut i: usize = 0;
    while i < rules.len()
        invariant
            i <= rules@.len(),
            metrics.spec_counters() == evaluated(counted, rules@, i as int),
            never_decrease(first, metrics.spec_counters()),
            metrics.spec_histograms() == histograms,
            metrics.spec_gauges() == gauges,
            metrics.spec_metadata() == metadata,
        decreases rules@.len() - i,
    {
        if rules[i].enabled {
            let ghost before = metrics.spec_counters();
            record_rule_evaluation(metrics, rules[i].name.as_str());
            proof {
                lemma_never_decrease_chain(first, before, metrics.spec_counters());
            }
        }
        i = i + 1;
    }
    let ghost tried = metrics.spec_counters();
    let ghost mut times: Seq<i64> = Seq::empty();
    let mut k: usize = 0;
    while k < triggered.len()
        invariant
            k <= triggered@.len(),
            times.len() == k,
            metrics.spec_counters() == set_off(tried, triggered@, k as int),
            never_decrease(first, metrics.spec_counters()),
            metrics.spec_histograms() == timed(histograms, triggered@, times, k as int),
            metrics.spec_gauges() == gauges,
            metrics.spec_metadata() == metadata,
        decreases triggered@.len() - k,
    {
        let t = &triggered[k];
        let ghost before = metrics.spec_counters();
        record_rule_match(metrics, t.rule.as_str());
        let ghost matched = metrics.spec_counters();
        let ghost noted = metrics.spec_histograms();
        let name = action_name(t.place);
        record_action_execution(metrics, name.as_str(), t.outcome.is_ok(), t.nanos);
        proof {
            lemma_never_decrease_chain(first, before, matched);
            lemma_never_decrease_chain(first, matched, metrics.spec_counters());
            let key = duration_key(t.place as nat, t.outcome is Ok);
            let now = choose|now: i64|
                metrics.spec_histograms() == #[trigger] noted.insert(
                    key,
                    samples_at(noted, key).push((now, t.nanos)),
                );
            let longer = times.push(now);
            lemma_timed_prefix(histograms, triggered@, times, longer, k as int);
            times = longer;
        }
        k = k + 1;
    }
    let ghost reached = *metrics;
    record_event_processing_duration(metrics, nanos);
    proof {
        let now = choose|now: i64| #[trigger]
            sampled(
                &reached,
                &*metrics,
                "events_processing_duration_seconds"@,
                Seq::empty(),
                (now, nanos),
            );
        assert(metrics.spec_histograms() == histograms_at(
            histograms,
            triggered@,
            times,
            now,
            nanos,
        ));
    }
}

/// Dispatches an event and takes note of it: what `dispatch_timed` sets
/// off, recorded as `record_dispatch` does with the time that all of it
/// took.
pub fn dispatch_recorded(
    rules: &Vec<Rule>,
    executor: &ActionExecutor,
    event: &Event,
    metrics: &mut MetricsCollector,
) -> (r: Vec<Triggered>)
    ensures
        is_timed_dispatch(rules@, executor, event, r@, rules@.len() as int),
        exists|nanos: u64| #[trigger]
            dispatch_recorded_in(old(metrics), final(metrics), rules@, event, r@, nanos),
        number_at(final(metrics).spec_counters(), event_key(event)) == saturating_sum(
            number_at(old(metrics).spec_counters(), event_key(event)),
            1,
        ),
{
    let started = capture_instant();
    let triggered = dispatch_timed(rules, executor, event);
    let nanos = nanos_since(&started);
    record_dispatch(metrics, rules, event, &triggered, nanos);
    triggered
}

} // verus!
