//! The metrics that the engine records, each under its name and labels.

use crate::metrics::collector::{
    never_decrease, number_at, samples_at, saturating_sum, MetricsCollector,
};
use crate::metrics::keys::{key_text, with_pair, Labels};
use crate::metrics::store::Sample;
use vstd::prelude::*;

verus! {

/// A set of one label.
pub open spec fn one_label(key: Seq<char>, value: Seq<char>) -> Seq<(Seq<char>, Seq<char>)> {
    with_pair(Seq::empty(), key, value)
}

/// A set of two labels.
pub open spec fn two_labels(k1: Seq<char>, v1: Seq<char>, k2: Seq<char>, v2: Seq<char>) -> Seq<
    (Seq<char>, Seq<char>),
> {
    with_pair(with_pair(Seq::empty(), k1, v1), k2, v2)
}

/// Whether `after` is `before` with one counter incremented by `by`.
pub open spec fn counted(
    before: &MetricsCollector,
    after: &MetricsCollector,
    name: Seq<char>,
    labels: Seq<(Seq<char>, Seq<char>)>,
    by: u64,
) -> bool {
    &&& after.spec_counters() == before.spec_counters().insert(
        key_text(name, labels),
        saturating_sum(number_at(before.spec_counters(), key_text(name, labels)), by),
    )
    &&& never_decrease(before.spec_counters(), after.spec_counters())
    &&& after.spec_gauges() == before.spec_gauges()
    &&& after.spec_metadata() == before.spec_metadata()
}

/// Whether `after` is `before` with one sample added to a histogram.
pub open spec fn sampled(
    before: &MetricsCollector,
    after: &MetricsCollector,
    name: Seq<char>,
    labels: Seq<(Seq<char>, Seq<char>)>,
    sample: Sample,
) -> bool {
    &&& after.spec_histograms() == before.spec_histograms().insert(
        key_text(name, labels),
        samples_at(before.spec_histograms(), key_text(name, labels)).push(sample),
    )
    &&& after.spec_gauges() == before.spec_gauges()
    &&& after.spec_metadata() == before.spec_metadata()
}

/// The text of a status label.
pub open spec fn status_text(success: bool) -> Seq<char> {
    if success {
        "success"@
    } else {
        "error"@
    }
}

fn status_label(success: bool) -> (r: &'static str)
    ensures
        r@ == status_text(success),
{
    if success {
        "success"
    } else {
        "error"
    }
}

fn labels_of_one(key: &str, value: &str) -> (r: Labels)
    ensures
        r@ == one_label(key@, value@),
{
    let mut labels = Labels::new();
    assert(labels@ =~= Seq::<(Seq<char>, Seq<char>)>::empty());
    labels.insert(key, value);
    labels
}

fn labels_of_two(k1: &str, v1: &str, k2: &str, v2: &str) -> (r: Labels)
    ensures
        r@ == two_labels(k1@, v1@, k2@, v2@),
{
    let mut labels = labels_of_one(k1, v1);
    labels.insert(k2, v2);
    labels
}

fn no_labels() -> (r: Labels)
    ensures
        r@ == Seq::<(Seq<char>, Seq<char>)>::empty(),
{
    let labels = Labels::new();
    assert(labels@ =~= Seq::<(Seq<char>, Seq<char>)>::empty());
    labels
}

/// Counts one processed event of a plugin and an event type.
pub fn record_event(metrics: &mut MetricsCollector, plugin: &str, event_type: &str)
    ensures
        counted(
            old(metrics),
            final(metrics),
            "events_total"@,
            two_labels("plugin"@, plugin@, "type"@, event_type@),
            1,
        ),
        final(metrics).spec_histograms() == old(metrics).spec_histograms(),
{
    let labels = labels_of_two("plugin", plugin, "type", event_type);
    metrics.increment_counter("events_total", &labels, 1);
}

/// Counts one event that was dropped because the bus was full.
pub fn record_event_dropped(metrics: &mut MetricsCollector)
    ensures
        counted(old(metrics), final(metrics), "events_dropped_total"@, Seq::empty(), 1),
        final(metrics).spec_histograms() == old(metrics).spec_histograms(),
{
    let labels = no_labels();
    metrics.increment_counter("events_dropped_total", &labels, 1);
}

/// Notes how long processing an event took, in nanoseconds.
pub fn record_event_processing_duration(metrics: &mut MetricsCollector, nanos: u64)
    ensures
        exists|now: i64| #[trigger]
            sampled(
                old(metrics),
                final(metrics),
                "events_processing_duration_seconds"@,
                Seq::empty(),
                (now, nanos),
            ),
        final(metrics).spec_counters() == old(metrics).spec_counters(),
{
    let labels = no_labels();
    metrics.record_histogram("events_processing_duration_seconds", &labels, nanos);
    proof {
        let now = choose|now: i64| #[trigger]
            crate::metrics::collector::observed_at(
                *old(metrics),
                *metrics,
                "events_processing_duration_seconds"@,
                labels@,
                nanos,
                now,
            );
        assert(sampled(
            old(metrics),
            metrics,
            "events_processing_duration_seconds"@,
            Seq::empty(),
            (now, nanos),
        ));
    }
}

/// Counts one evaluation of a rule.
pub fn record_rule_evaluation(metrics: &mut MetricsCollector, rule_name: &str)
    ensures
        counted(
            old(metrics),
            final(metrics),
            "rules_evaluated_total"@,
            one_label("rule"@, rule_name@),
            1,
        ),
        final(metrics).spec_histograms() == old(metrics).spec_histograms(),
{
    let labels = labels_of_one("rule", rule_name);
    metrics.increment_counter("rules_evaluated_total", &labels, 1);
}

/// Counts one match of a rule.
pub fn record_rule_match(metrics: &mut MetricsCollector, rule_name: &str)
    ensures
        counted(
            old(metrics),
            final(metrics),
            "rules_matched_total"@,
            one_label("rule"@, rule_name@),
            1,
        ),
        final(metrics).spec_histograms() == old(metrics).spec_histograms(),
{
    let labels = labels_of_one("rule", rule_name);
    metrics.increment_counter("rules_matched_total", &labels, 1);
}

/// Notes how long matching a rule took, in nanoseconds.
pub fn record_rule_match_duration(
    metrics: &mut MetricsCollector,
    rule_name: &str,
    nanos: u64,
)
    ensures
        exists|now: i64| #[trigger]
            sampled(
                old(metrics),
                final(metrics),
                "rules_match_duration_seconds"@,
                one_label("rule"@, rule_name@),
                (now, nanos),
            ),
        final(metrics).spec_counters() == old(metrics).spec_counters(),
{
    let labels = labels_of_one("rule", rule_name);
    metrics.record_histogram("rules_match_duration_seconds", &labels, nanos);
    proof {
        let now = choose|now: i64| #[trigger]
            crate::metrics::collector::observed_at(
                *old(metrics),
                *metrics,
                "rules_match_duration_seconds"@,
                labels@,
                nanos,
                now,
            );
        assert(sampled(
            old(metrics),
            metrics,
            "rules_match_duration_seconds"@,
            one_label("rule"@, rule_name@),
            (now, nanos),
        ));
    }
}

/// Counts one run of an action under its status, and notes how long it
/// took, in nanoseconds.
pub fn record_action_execution(
    metrics: &mut MetricsCollector,
    action_name: &str,
    success: bool,
    nanos: u64,
)
    ensures
        final(metrics).spec_counters() == old(metrics).spec_counters().insert(
            key_text(
                "actions_executed_total"@,
                two_labels("action"@, action_name@, "status"@, status_text(success)),
            ),
            saturating_sum(
                number_at(
                    old(metrics).spec_counters(),
                    key_text(
                        "actions_executed_total"@,
                        two_labels("action"@, action_name@, "status"@, status_text(success)),
                    ),
                ),
                1,
            ),
        ),
        never_decrease(old(metrics).spec_counters(), final(metrics).spec_counters()),
        exists|now: i64|
            final(metrics).spec_histograms() == #[trigger] old(metrics).spec_histograms().insert(
                key_text(
                    "actions_execution_duration_seconds"@,
                    two_labels("action"@, action_name@, "status"@, status_text(success)),
                ),
                samples_at(
                    old(metrics).spec_histograms(),
                    key_text(
                        "actions_execution_duration_seconds"@,
                        two_labels("action"@, action_name@, "status"@, status_text(success)),
                    ),
                ).push((now, nanos)),
            ),
        final(metrics).spec_gauges() == old(metrics).spec_gauges(),
        final(metrics).spec_metadata() == old(metrics).spec_metadata(),
{
    let labels = labels_of_two("action", action_name, "status", status_label(success));
    metrics.increment_counter("actions_executed_total", &labels, 1);
    metrics.record_histogram("actions_execution_duration_seconds", &labels, nanos);
}

/// Counts one event that a plugin generated.
pub fn record_plugin_event(metrics: &mut MetricsCollector, plugin: &str, event_type: &str)
    ensures
        counted(
            old(metrics),
            final(metrics),
            "plugins_events_generated_total"@,
            two_labels("plugin"@, plugin@, "type"@, event_type@),
            1,
        ),
        final(metrics).spec_histograms() == old(metrics).spec_histograms(),
{
    let labels = labels_of_two("plugin", plugin, "type", event_type);
    metrics.increment_counter("plugins_events_generated_total", &labels, 1);
}

/// Counts one error of a plugin.
pub fn record_plugin_error(metrics: &mut MetricsCollector, plugin: &str, error_type: &str)
    ensures
        counted(
            old(metrics),
            final(metrics),
            "plugins_errors_total"@,
            two_labels("plugin"@, plugin@, "error_type"@, error_type@),
            1,
        ),
        final(metrics).spec_histograms() == old(metrics).spec_histograms(),
{
    let labels = labels_of_two("plugin", plugin, "error_type", error_type);
    metrics.increment_counter("plugins_errors_total", &labels, 1);
}

/// Counts one reload of the configuration under its status.
pub fn record_config_reload(metrics: &mut MetricsCollector, success: bool)
    ensures
        counted(
            old(metrics),
            final(metrics),
            "config_reload_total"@,
            one_label("status"@, status_text(success)),
            1,
        ),
        final(metrics).spec_histograms() == old(metrics).spec_histograms(),
{
    let labels = labels_of_one("status", status_label(success));
    metrics.increment_counter("config_reload_total", &labels, 1);
}

} // verus!
