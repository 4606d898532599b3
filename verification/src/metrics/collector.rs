//! The metrics collector: current values of counters and gauges, sample
//! history for sliding windows, and the text form of counters and
//! histograms.

use crate::collections::{holds_key, lemma_entry_in_map, map_of, unique_keys};
use crate::metrics::keys::{
    build_key, format_labels, key_text, label_text, parse_key, parsed_key, Labels,
};
use crate::metrics::clock::now_millis;
use crate::metrics::store::{
    get_metadata, get_number, get_samples, metadata_in, new_metadata, new_numbers, new_samples,
    number_entries, numbers_in, put_metadata, put_number, put_samples, sample_entries,
    samples_in, MetadataMap, MetricMetadata, MetricType, NumberMap, Sample, SampleMap,
};
use crate::text::{concat3, decimal, seconds_text, seconds_to_string, u64_to_string};
use vstd::prelude::*;
use vstd::string::*;

verus! {

/// How long the history of regular metrics is kept, in seconds.
pub const DEFAULT_RETENTION_SECONDS: u64 = 3600;

/// How long the history of error metrics is kept, in seconds.
pub const ERROR_RETENTION_SECONDS: u64 = 86400;

/// How often history is evicted, in seconds.
pub const CLEANUP_INTERVAL_SECONDS: u64 = 300;

/// The sum of two counts, held at the largest count where it would pass
/// it.
pub open spec fn saturating_sum(a: u64, b: u64) -> u64 {
    if a + b > u64::MAX {
        u64::MAX
    } else {
        (a + b) as u64
    }
}

/// The number bound to the key; zero where none is bound.
pub open spec fn number_at(numbers: Map<Seq<char>, u64>, key: Seq<char>) -> u64 {
    if numbers.dom().contains(key) {
        numbers[key]
    } else {
        0
    }
}

/// The samples bound to the key; none where none are bound.
pub open spec fn samples_at(samples: Map<Seq<char>, Seq<Sample>>, key: Seq<char>) -> Seq<Sample> {
    if samples.dom().contains(key) {
        samples[key]
    } else {
        Seq::empty()
    }
}

/// Whether every number bound before is still bound and is not smaller.
pub open spec fn never_decrease(before: Map<Seq<char>, u64>, after: Map<Seq<char>, u64>) -> bool {
    forall|key: Seq<char>| #[trigger]
        before.dom().contains(key) ==> after.dom().contains(key) && after[key] >= before[key]
}

/// Numbers that stay as they are do not decrease.
pub proof fn lemma_never_decrease_same(a: Map<Seq<char>, u64>)
    ensures
        never_decrease(a, a),
{
}

/// Numbers that never decrease from a first state to a second and from
/// the second to a third never decrease from the first to the third.
pub proof fn lemma_never_decrease_chain(
    a: Map<Seq<char>, u64>,
    b: Map<Seq<char>, u64>,
    c: Map<Seq<char>, u64>,
)
    requires
        never_decrease(a, b),
        never_decrease(b, c),
    ensures
        never_decrease(a, c),
{
    assert forall|key: Seq<char>| #[trigger] a.dom().contains(key) implies c.dom().contains(key)
        && c[key] >= a[key] by {
        assert(b.dom().contains(key));
    }
}

/// Whether a sample is younger than `seconds` at the time `now`.
pub open spec fn is_recent(sample: Sample, now: i64, seconds: u64) -> bool {
    sample.0 as int > now as int - seconds as int * 1000
}

/// The samples that are younger than `seconds` at the time `now`, in
/// order.
pub open spec fn recent(samples: Seq<Sample>, now: i64, seconds: u64) -> Seq<Sample> {
    samples.filter(|s: Sample| is_recent(s, now, seconds))
}

/// The values of samples, in order.
pub open spec fn values_of(samples: Seq<Sample>) -> Seq<u64> {
    samples.map_values(|s: Sample| s.1)
}

/// What is registered about a metric, texts by their view.
pub open spec fn metadata_view(metadata: MetricMetadata) -> (MetricType, Seq<char>, bool) {
    (metadata.metric_type, metadata.description@, metadata.is_error_metric)
}

/// The metrics that every collector knows from the start.
pub open spec fn builtin_metadata() -> Map<Seq<char>, (MetricType, Seq<char>, bool)> {
    Map::<Seq<char>, (MetricType, Seq<char>, bool)>::empty().insert(
        "events_total"@,
        (MetricType::Counter, "Total events processed"@, false),
    ).insert(
        "events_dropped_total"@,
        (MetricType::Counter, "Total events dropped due to full buffer"@, true),
    ).insert(
        "events_processing_duration_seconds"@,
        (MetricType::Histogram, "Event processing duration in seconds"@, false),
    ).insert("rules_evaluated_total"@, (MetricType::Counter, "Total rule evaluations"@, false)).insert(
        "rules_matched_total"@,
        (MetricType::Counter, "Total successful rule matches"@, false),
    ).insert(
        "rules_match_duration_seconds"@,
        (MetricType::Histogram, "Rule matching duration in seconds"@, false),
    ).insert(
        "actions_executed_total"@,
        (MetricType::Counter, "Total actions executed"@, false),
    ).insert(
        "actions_execution_duration_seconds"@,
        (MetricType::Histogram, "Action execution duration in seconds"@, false),
    ).insert(
        "plugins_events_generated_total"@,
        (MetricType::Counter, "Total events generated by plugins"@, false),
    ).insert("plugins_errors_total"@, (MetricType::Counter, "Total plugin errors"@, true)).insert(
        "engine_uptime_seconds"@,
        (MetricType::Gauge, "Engine uptime in seconds"@, false),
    ).insert("config_reload_total"@, (MetricType::Counter, "Total configuration reloads"@, false))
}

/// The views of the metadata bound in a map.
pub open spec fn metadata_views(map: Map<Seq<char>, MetricMetadata>) -> Map<
    Seq<char>,
    (MetricType, Seq<char>, bool),
> {
    Map::new(|name: Seq<char>| map.dom().contains(name), |name: Seq<char>| metadata_view(map[name]))
}

/// Counts and bounds of the samples of a histogram, in nanoseconds.
#[derive(Debug, Clone, Copy, PartialEq, Eq, Structural)]
pub struct HistogramStats {
    pub count: u64,
    pub sum: u128,
    pub min: u64,
    pub max: u64,
}

/// The sum of the first `n` values.
pub open spec fn sum_of(values: Seq<u64>, n: int) -> int
    decreases n,
{
    if n <= 0 || n > values.len() {
        0
    } else {
        sum_of(values, n - 1) + values[n - 1]
    }
}

/// The smallest of the first `n` values; the largest number where `n` is
/// zero.
pub open spec fn min_of(values: Seq<u64>, n: int) -> u64
    decreases n,
{
    if n <= 0 || n > values.len() {
        u64::MAX
    } else if values[n - 1] < min_of(values, n - 1) {
        values[n - 1]
    } else {
        min_of(values, n - 1)
    }
}

/// The largest of the first `n` values; zero where `n` is zero.
pub open spec fn max_of(values: Seq<u64>, n: int) -> u64
    decreases n,
{
    if n <= 0 || n > values.len() {
        0
    } else if values[n - 1] > max_of(values, n - 1) {
        values[n - 1]
    } else {
        max_of(values, n - 1)
    }
}

/// The statistics of values: all zero where there are none.
pub open spec fn stats_of(values: Seq<u64>) -> HistogramStats {
    if values.len() == 0 {
        HistogramStats { count: 0, sum: 0, min: 0, max: 0 }
    } else {
        HistogramStats {
            count: values.len() as u64,
            sum: sum_of(values, values.len() as int) as u128,
            min: min_of(values, values.len() as int),
            max: max_of(values, values.len() as int),
        }
    }
}

/// The statistics of values.
pub fn compute_stats(values: &Vec<u64>) -> (r: HistogramStats)
    ensures
        r == stats_of(values@),
{
    let total: usize = values.len();
    if total == 0 {
        return HistogramStats { count: 0, sum: 0, min: 0, max: 0 };
    }
    let mut sum: u128 = 0;
    let mut min: u64 = u64::MAX;
    let mut max: u64 = 0;
    let mut i: usize = 0;
    while i < total
        invariant
            i <= total,
            total == values@.len(),
            sum == sum_of(values@, i as int),
            sum <= i * 0xffff_ffff_ffff_ffff,
            min == min_of(values@, i as int),
            max == max_of(values@, i as int),
        decreases total - i,
    {
        let v = values[i];
        assert((i + 1) * 0xffff_ffff_ffff_ffff == i * 0xffff_ffff_ffff_ffff + 0xffff_ffff_ffff_ffff)
            by (nonlinear_arith);
        assert(i * 0xffff_ffff_ffff_ffff <= 0xffff_ffff_ffff_ffff * 0xffff_ffff_ffff_ffff)
            by (nonlinear_arith)
            requires
                i <= 0xffff_ffff_ffff_ffff,
        ;
        sum = sum + v as u128;
        if v < min {
            min = v;
        }
        if v > max {
            max = v;
        }
        i = i + 1;
    }
    HistogramStats { count: total as u64, sum, min, max }
}

/// The samples of a list that are recent, in order.
pub fn keep_recent(samples: &Vec<Sample>, now: i64, seconds: u64) -> (r: Vec<Sample>)
    ensures
        r@ == recent(samples@, now, seconds),
{
    let ghost pred = |s: Sample| is_recent(s, now, seconds);
    let cutoff: i128 = now as i128 - seconds as i128 * 1000;
    let mut out: Vec<Sample> = Vec::new();
    let mut i: usize = 0;
    proof {
        assert(samples@.take(0) =~= Seq::<Sample>::empty());
    }
    while i < samples.len()
        invariant
            i <= samples@.len(),
            cutoff == now as int - seconds as int * 1000,
            pred == (|s: Sample| is_recent(s, now, seconds)),
            out@ == samples@.take(i as int).filter(pred),
        decreases samples@.len() - i,
    {
        let sample = samples[i];
        proof {
            assert(samples@.take(i + 1) =~= samples@.take(i as int).push(sample));
            samples@.take(i as int).lemma_filter_push(sample, pred);
        }
        if sample.0 as i128 > cutoff {
            out.push(sample);
        }
        i = i + 1;
    }
    assert(samples@.take(samples@.len() as int) =~= samples@);
    out
}

/// The values of samples, in order.
pub fn sample_values(samples: &Vec<Sample>) -> (r: Vec<u64>)
    ensures
        r@ == values_of(samples@),
{
    let mut out: Vec<u64> = Vec::new();
    let mut i: usize = 0;
    while i < samples.len()
        invariant
            i <= samples@.len(),
            out@.len() == i,
            forall|k: int| 0 <= k < i ==> out@[k] == samples@[k].1,
        decreases samples@.len() - i,
    {
        out.push(samples[i].1);
        i = i + 1;
    }
    assert(out@ =~= values_of(samples@));
    out
}

/// The state of all metrics at one time.
#[derive(Debug, Clone)]
pub struct MetricsSnapshot {
    /// When the snapshot was taken, in milliseconds since the epoch.
    pub timestamp: i64,
    /// The current value of each counter, by key.
    pub counters: Vec<(String, u64)>,
    /// The current value of each gauge, by key, as the bits of a
    /// floating-point number.
    pub gauges: Vec<(String, u64)>,
    /// For each histogram that has samples within the retention window,
    /// their values in nanoseconds.
    pub histograms: Vec<(String, Vec<u64>)>,
}

/// The block of lines for one counter in the text form.
pub open spec fn counter_block(
    name: Seq<char>,
    labels: Seq<char>,
    description: Seq<char>,
    value: u64,
) -> Seq<char> {
    "# HELP "@ + name + " "@ + description + "\n# TYPE "@ + name + " counter\n"@ + name + labels
        + " "@ + decimal(value as nat) + "\n"@
}

/// The block of lines for one gauge in the text form; `value` is the
/// gauge's value as text.
pub open spec fn gauge_block(name: Seq<char>, labels: Seq<char>, value: Seq<char>) -> Seq<char> {
    "# HELP "@ + name + " "@ + name + "\n# TYPE "@ + name + " gauge\n"@ + name + labels + " "@
        + value + "\n"@
}

/// The block of lines for one histogram in the text form, as a summary
/// of sum and count; `sum` is the sum of the samples as text.
pub open spec fn summary_block(
    name: Seq<char>,
    labels: Seq<char>,
    description: Seq<char>,
    sum: Seq<char>,
    count: u64,
) -> Seq<char> {
    "# HELP "@ + name + " "@ + description + "\n# TYPE "@ + name + " summary\n"@ + name + "_sum"@
        + labels + " "@ + sum + "\n"@ + name + "_count"@ + labels + " "@ + decimal(count as nat)
        + "\n"@
}

/// The block of lines for one counter.
pub fn render_counter(name: &str, labels: &Labels, description: &str, value: u64) -> (r: String)
    ensures
        r@ == counter_block(name@, label_text(labels@), description@, value),
{
    let label_part = format_labels(labels);
    let digits = u64_to_string(value);
    let mut out = concat3("# HELP ", name, " ");
    out.append(description);
    out.append("\n# TYPE ");
    out.append(name);
    out.append(" counter\n");
    out.append(name);
    out.append(label_part.as_str());
    out.append(" ");
    out.append(digits.as_str());
    out.append("\n");
    out
}

/// The block of lines for one gauge.
pub fn render_gauge(name: &str, labels: &Labels, value: &str) -> (r: String)
    ensures
        r@ == gauge_block(name@, label_text(labels@), value@),
{
    let label_part = format_labels(labels);
    let mut out = concat3("# HELP ", name, " ");
    out.append(name);
    out.append("\n# TYPE ");
    out.append(name);
    out.append(" gauge\n");
    out.append(name);
    out.append(label_part.as_str());
    out.append(" ");
    out.append(value);
    out.append("\n");
    out
}

/// The block of lines for one histogram.
pub fn render_summary(name: &str, labels: &Labels, description: &str, sum: &str, count: u64) -> (r:
    String)
    ensures
        r@ == summary_block(name@, label_text(labels@), description@, sum@, count),
{
    let label_part = format_labels(labels);
    let digits = u64_to_string(count);
    let mut out = concat3("# HELP ", name, " ");
    out.append(description);
    out.append("\n# TYPE ");
    out.append(name);
    out.append(" summary\n");
    out.append(name);
    out.append("_sum");
    out.append(label_part.as_str());
    out.append(" ");
    out.append(sum);
    out.append("\n");
    out.append(name);
    out.append("_count");
    out.append(label_part.as_str());
    out.append(" ");
    out.append(digits.as_str());
    out.append("\n");
    out
}

/// The counters, gauges and sample histories of an engine.
pub struct MetricsCollector {
    metadata: MetadataMap,
    counters: NumberMap,
    counter_samples: SampleMap,
    gauges: NumberMap,
    gauge_samples: SampleMap,
    histograms: SampleMap,
    retention_seconds: u64,
    error_retention_seconds: u64,
}

impl MetricsCollector {
    /// What is registered about each metric.
    pub closed spec fn spec_metadata(&self) -> Map<Seq<char>, (MetricType, Seq<char>, bool)> {
        metadata_views(metadata_in(self.metadata))
    }

    /// The current value of each counter, by key.
    pub closed spec fn spec_counters(&self) -> Map<Seq<char>, u64> {
        numbers_in(self.counters)
    }

    /// The increments of each counter, with the time of each.
    pub closed spec fn spec_counter_samples(&self) -> Map<Seq<char>, Seq<Sample>> {
        samples_in(self.counter_samples)
    }

    /// The current value of each gauge, by key, as bits.
    pub closed spec fn spec_gauges(&self) -> Map<Seq<char>, u64> {
        numbers_in(self.gauges)
    }

    /// The values that each gauge was set to, with the time of each.
    pub closed spec fn spec_gauge_samples(&self) -> Map<Seq<char>, Seq<Sample>> {
        samples_in(self.gauge_samples)
    }

    /// The samples of each histogram, in nanoseconds, with the time of
    /// each.
    pub closed spec fn spec_histograms(&self) -> Map<Seq<char>, Seq<Sample>> {
        samples_in(self.histograms)
    }

    /// How long the history of counters and gauges is kept, in seconds.
    pub closed spec fn spec_retention(&self) -> u64 {
        self.retention_seconds
    }

    /// How long the samples of histograms are kept, in seconds.
    pub closed spec fn spec_error_retention(&self) -> u64 {
        self.error_retention_seconds
    }

    /// Whether two collectors differ at most in their metadata.
    pub open spec fn same_values(&self, other: &Self) -> bool {
        &&& self.spec_counters() == other.spec_counters()
        &&& self.spec_counter_samples() == other.spec_counter_samples()
        &&& self.spec_gauges() == other.spec_gauges()
        &&& self.spec_gauge_samples() == other.spec_gauge_samples()
        &&& self.spec_histograms() == other.spec_histograms()
        &&& self.spec_retention() == other.spec_retention()
        &&& self.spec_error_retention() == other.spec_error_retention()
    }

    /// A collector with the usual retention: an hour for regular history,
    /// a day for errors.
    pub fn new() -> (r: Self)
        ensures
            r.spec_metadata() == builtin_metadata(),
            r.spec_counters() == Map::<Seq<char>, u64>::empty(),
            r.spec_counter_samples() == Map::<Seq<char>, Seq<Sample>>::empty(),
            r.spec_gauges() == Map::<Seq<char>, u64>::empty(),
            r.spec_gauge_samples() == Map::<Seq<char>, Seq<Sample>>::empty(),
            r.spec_histograms() == Map::<Seq<char>, Seq<Sample>>::empty(),
            r.spec_retention() == DEFAULT_RETENTION_SECONDS,
            r.spec_error_retention() == ERROR_RETENTION_SECONDS,
    {
        Self::with_retention(DEFAULT_RETENTION_SECONDS, ERROR_RETENTION_SECONDS)
    }

    /// A collector without values, which knows the built-in metrics.
    pub fn with_retention(retention_seconds: u64, error_retention_seconds: u64) -> (r: Self)
        ensures
            r.spec_metadata() == builtin_metadata(),
            r.spec_counters() == Map::<Seq<char>, u64>::empty(),
            r.spec_counter_samples() == Map::<Seq<char>, Seq<Sample>>::empty(),
            r.spec_gauges() == Map::<Seq<char>, u64>::empty(),
            r.spec_gauge_samples() == Map::<Seq<char>, Seq<Sample>>::empty(),
            r.spec_histograms() == Map::<Seq<char>, Seq<Sample>>::empty(),
            r.spec_retention() == retention_seconds,
            r.spec_error_retention() == error_retention_seconds,
    {
        let mut collector = MetricsCollector {
            metadata: new_metadata(),
            counters: new_numbers(),
            counter_samples: new_samples(),
            gauges: new_numbers(),
            gauge_samples: new_samples(),
            histograms: new_samples(),
            retention_seconds,
            error_retention_seconds,
        };
        assert(collector.spec_metadata() =~= Map::<
            Seq<char>,
            (MetricType, Seq<char>, bool),
        >::empty());
        collector.register_metadata(
            "events_total",
            MetricType::Counter,
            "Total events processed",
            false,
        );
        collector.register_metadata(
            "events_dropped_total",
            MetricType::Counter,
            "Total events dropped due to full buffer",
            true,
        );
        collector.register_metadata(
            "events_processing_duration_seconds",
            MetricType::Histogram,
            "Event processing duration in seconds",
            false,
        );
        collector.register_metadata(
            "rules_evaluated_total",
            MetricType::Counter,
            "Total rule evaluations",
            false,
        );
        collector.register_metadata(
            "rules_matched_total",
            MetricType::Counter,
            "Total successful rule matches",
            false,
        );
        collector.register_metadata(
            "rules_match_duration_seconds",
            MetricType::Histogram,
            "Rule matching duration in seconds",
            false,
        );
        collector.register_metadata(
            "actions_executed_total",
            MetricType::Counter,
            "Total actions executed",
            false,
        );
        collector.register_metadata(
            "actions_execution_duration_seconds",
            MetricType::Histogram,
            "Action execution duration in seconds",
            false,
        );
        collector.register_metadata(
            "plugins_events_generated_total",
            MetricType::Counter,
            "Total events generated by plugins",
            false,
        );
        collector.register_metadata(
            "plugins_errors_total",
            MetricType::Counter,
            "Total plugin errors",
            true,
        );
        collector.register_metadata(
            "engine_uptime_seconds",
            MetricType::Gauge,
            "Engine uptime in seconds",
            false,
        );
        collector.register_metadata(
            "config_reload_total",
            MetricType::Counter,
            "Total configuration reloads",
            false,
        );
        collector
    }

    /// Registers what a metric is, in place of what was registered under
    /// its name before. No value changes.
    pub fn register_metadata(
        &mut self,
        name: &str,
        metric_type: MetricType,
        description: &str,
        is_error_metric: bool,
    )
        ensures
            final(self).spec_metadata() == old(self).spec_metadata().insert(
                name@,
                (metric_type, description@, is_error_metric),
            ),
            final(self).same_values(old(self)),
    {
        let metadata = MetricMetadata {
            metric_type,
            description: String::from_str(description),
            is_error_metric,
        };
        put_metadata(&mut self.metadata, String::from_str(name), metadata);
        assert(final(self).spec_metadata() =~= old(self).spec_metadata().insert(
            name@,
            (metric_type, description@, is_error_metric),
        ));
    }

    /// What is registered about the metric, if anything.
    pub fn metadata_of(&self, name: &str) -> (r: Option<MetricMetadata>)
        ensures
            r is Some <==> self.spec_metadata().dom().contains(name@),
            r matches Some(m) ==> metadata_view(m) == self.spec_metadata()[name@],
    {
        get_metadata(&self.metadata, name)
    }

    /// Adds `value` to the counter, which starts at zero, and notes the
    /// increment with the time `now`. A counter that would pass the
    /// largest count stays there. Nothing else changes, and no counter
    /// decreases.
    pub fn increment_counter_at(&mut self, name: &str, labels: &Labels, value: u64, now: i64)
        ensures
            incremented_at(*old(self), *final(self), name@, labels@, value, now),
            never_decrease(old(self).spec_counters(), final(self).spec_counters()),
    {
        let key = build_key(name, labels);
        let current = match get_number(&self.counters, key.as_str()) {
            Some(c) => c,
            None => 0,
        };
        let updated: u64 = if current > u64::MAX - value {
            u64::MAX
        } else {
            current + value
        };
        put_number(&mut self.counters, key.clone(), updated);
        let mut history = match get_samples(&self.counter_samples, key.as_str()) {
            Some(list) => list,
            None => Vec::new(),
        };
        history.push((now, value));
        put_samples(&mut self.counter_samples, key, history);
    }

    /// Sets the gauge to the value, given as the bits of a floating-point
    /// number, and notes it with the time `now`. Nothing else changes.
    pub fn set_gauge_at(&mut self, name: &str, labels: &Labels, bits: u64, now: i64)
        ensures
            gauge_set_at(*old(self), *final(self), name@, labels@, bits, now),
            never_decrease(old(self).spec_counters(), final(self).spec_counters()),
    {
        let key = build_key(name, labels);
        put_number(&mut self.gauges, key.clone(), bits);
        let mut history = match get_samples(&self.gauge_samples, key.as_str()) {
            Some(list) => list,
            None => Vec::new(),
        };
        history.push((now, bits));
        put_samples(&mut self.gauge_samples, key, history);
    }

    /// Adds a sample, in nanoseconds, to the histogram, with the time
    /// `now`. Nothing else changes.
    pub fn record_histogram_at(&mut self, name: &str, labels: &Labels, nanos: u64, now: i64)
        ensures
            observed_at(*old(self), *final(self), name@, labels@, nanos, now),
            never_decrease(old(self).spec_counters(), final(self).spec_counters()),
    {
        let key = build_key(name, labels);
        let mut history = match get_samples(&self.histograms, key.as_str()) {
            Some(list) => list,
            None => Vec::new(),
        };
        history.push((now, nanos));
        put_samples(&mut self.histograms, key, history);
    }

    /// The current value of the counter, if it was ever incremented.
    pub fn get_counter(&self, name: &str, labels: &Labels) -> (r: Option<u64>)
        ensures
            r == (if self.spec_counters().dom().contains(key_text(name@, labels@)) {
                Some(self.spec_counters()[key_text(name@, labels@)])
            } else {
                None
            }),
    {
        let key = build_key(name, labels);
        get_number(&self.counters, key.as_str())
    }

    /// The current value of the gauge as bits, if it was ever set.
    pub fn get_gauge(&self, name: &str, labels: &Labels) -> (r: Option<u64>)
        ensures
            r == (if self.spec_gauges().dom().contains(key_text(name@, labels@)) {
                Some(self.spec_gauges()[key_text(name@, labels@)])
            } else {
                None
            }),
    {
        let key = build_key(name, labels);
        get_number(&self.gauges, key.as_str())
    }

    /// The statistics of the histogram's samples within the retention
    /// window that ends at `now`; nothing for a histogram without any
    /// sample, zeros for one without a sample in the window.
    pub fn get_histogram_stats_at(&self, name: &str, labels: &Labels, now: i64) -> (r: Option<
        HistogramStats,
    >)
        ensures
            r == stats_at(*self, name@, labels@, now),
    {
        let key = build_key(name, labels);
        match get_samples(&self.histograms, key.as_str()) {
            Some(samples) => {
                let window = keep_recent(&samples, now, self.retention_seconds);
                let values = sample_values(&window);
                Some(compute_stats(&values))
            },
            None => None,
        }
    }

    /// Evicts history at the time `now`: increments of counters and
    /// settings of gauges older than the regular retention, samples of
    /// histograms older than the retention for errors. Current values of
    /// counters and gauges stay.
    pub fn cleanup_at(&mut self, now: i64)
        ensures
            cleaned_at(*old(self), *final(self), now),
            never_decrease(old(self).spec_counters(), final(self).spec_counters()),
    {
        evict(&mut self.counter_samples, now, self.retention_seconds);
        evict(&mut self.gauge_samples, now, self.retention_seconds);
        evict(&mut self.histograms, now, self.error_retention_seconds);
    }

    /// The state of all metrics at the time `now`: every counter and
    /// gauge, and of each histogram the samples within the retention
    /// window, where there are any.
    pub fn get_snapshot_at(&self, now: i64) -> (r: MetricsSnapshot)
        ensures
            is_snapshot_at(*self, r, now),
    {
        let counters = number_entries(&self.counters);
        let gauges = number_entries(&self.gauges);
        let entries = sample_entries(&self.histograms);
        let mut histograms: Vec<(String, Vec<u64>)> = Vec::new();
        let mut i: usize = 0;
        while i < entries.len()
            invariant
                i <= entries@.len(),
                unique_keys(entries@),
                map_of(entries@).dom() == self.spec_histograms().dom(),
                forall|k: int|
                    0 <= k < entries@.len() ==> (#[trigger] entries@[k]).1@
                        == self.spec_histograms()[entries@[k].0@],
                forall|k: int|
                    0 <= k < histograms@.len() ==> {
                        let key = (#[trigger] histograms@[k]).0@;
                        &&& self.spec_histograms().dom().contains(key)
                        &&& histograms@[k].1@.len() > 0
                        &&& histograms@[k].1@ == values_of(
                            recent(self.spec_histograms()[key], now, self.spec_retention()),
                        )
                    },
                forall|k: int|
                    0 <= k < i && recent(
                        self.spec_histograms()[(#[trigger] entries@[k]).0@],
                        now,
                        self.spec_retention(),
                    ).len() > 0 ==> holds_key(histograms@, entries@[k].0@),
                unique_keys(histograms@),
                forall|k: int|
                    0 <= k < histograms@.len() ==> holds_key(
                        entries@.take(i as int),
                        (#[trigger] histograms@[k]).0@,
                    ),
            decreases entries@.len() - i,
        {
            let ghost before = histograms@;
            proof {
                lemma_entry_in_map(entries@, i as int);
                assert forall|k: int| 0 <= k < before.len() implies holds_key(
                    entries@.take(i + 1),
                    (#[trigger] before[k]).0@,
                ) && before[k].0@ != entries@[i as int].0@ by {
                    let j = choose|j: int|
                        0 <= j < entries@.take(i as int).len() && (#[trigger] entries@.take(
                            i as int,
                        )[j]).0@ == before[k].0@;
                    assert(entries@.take(i + 1)[j].0@ == before[k].0@);
                    assert(entries@[j].0@ == before[k].0@);
                }
            }
            let window = keep_recent(&entries[i].1, now, self.retention_seconds);
            let values = sample_values(&window);
            if values.len() > 0 {
                histograms.push((entries[i].0.clone(), values));
                proof {
                    assert(histograms@[before.len() as int].0@ == entries@[i as int].0@);
                    assert(entries@.take(i + 1)[i as int].0@ == entries@[i as int].0@);
                    assert forall|k: int| 0 <= k < histograms@.len() implies holds_key(
                        entries@.take(i + 1),
                        (#[trigger] histograms@[k]).0@,
                    ) by {
                        if k < before.len() {
                            assert(histograms@[k] == before[k]);
                        }
                    }
                    assert forall|a: int, b: int|
                        0 <= a < histograms@.len() && 0 <= b < histograms@.len() && a
                            != b implies (#[trigger] histograms@[a]).0@ != (
                    #[trigger] histograms@[b]).0@ by {
                        if a < before.len() {
                            assert(histograms@[a] == before[a]);
                        }
                        if b < before.len() {
                            assert(histograms@[b] == before[b]);
                        }
                    }
                    assert forall|k: int|
                        0 <= k < i + 1 && recent(
                            self.spec_histograms()[(#[trigger] entries@[k]).0@],
                            now,
                            self.spec_retention(),
                        ).len() > 0 implies holds_key(histograms@, entries@[k].0@) by {
                        if k < i {
                            assert(holds_key(before, entries@[k].0@));
                            let j = choose|j: int|
                                0 <= j < before.len() && (#[trigger] before[j]).0@
                                    == entries@[k].0@;
                            assert(histograms@[j] == before[j]);
                        }
                    }
                }
            }
            i = i + 1;
        }
        proof {
            assert forall|key: Seq<char>|
                self.spec_histograms().dom().contains(key) && recent(
                    self.spec_histograms()[key],
                    now,
                    self.spec_retention(),
                ).len() > 0 implies #[trigger] holds_key(histograms@, key) by {
                assert(map_of(entries@).dom().contains(key));
                assert(holds_key(entries@, key));
                let k = choose|k: int|
                    0 <= k < entries@.len() && (#[trigger] entries@[k]).0@ == key;
                assert(holds_key(histograms@, entries@[k].0@));
            }
        }
        MetricsSnapshot { timestamp: now, counters, gauges, histograms }
    }

    /// Adds `value` to the counter and notes the increment with the
    /// current time: what `increment_counter_at` does at some time.
    pub fn increment_counter(&mut self, name: &str, labels: &Labels, value: u64)
        ensures
            exists|now: i64| #[trigger]
                incremented_at(*old(self), *final(self), name@, labels@, value, now),
            never_decrease(old(self).spec_counters(), final(self).spec_counters()),
    {
        let now = now_millis();
        self.increment_counter_at(name, labels, value, now);
    }

    /// Sets the gauge and notes the setting with the current time: what
    /// `set_gauge_at` does at some time.
    pub fn set_gauge(&mut self, name: &str, labels: &Labels, bits: u64)
        ensures
            exists|now: i64| #[trigger]
                gauge_set_at(*old(self), *final(self), name@, labels@, bits, now),
            never_decrease(old(self).spec_counters(), final(self).spec_counters()),
    {
        let now = now_millis();
        self.set_gauge_at(name, labels, bits, now);
    }

    /// Adds a sample to the histogram with the current time: what
    /// `record_histogram_at` does at some time.
    pub fn record_histogram(&mut self, name: &str, labels: &Labels, nanos: u64)
        ensures
            exists|now: i64| #[trigger]
                observed_at(*old(self), *final(self), name@, labels@, nanos, now),
            never_decrease(old(self).spec_counters(), final(self).spec_counters()),
    {
        let now = now_millis();
        self.record_histogram_at(name, labels, nanos, now);
    }

    /// The statistics of the histogram's samples within the retention
    /// window that ends now: what `get_histogram_stats_at` gives at some
    /// time.
    pub fn get_histogram_stats(&self, name: &str, labels: &Labels) -> (r: Option<HistogramStats>)
        ensures
            exists|now: i64| r == #[trigger] stats_at(*self, name@, labels@, now),
    {
        let now = now_millis();
        self.get_histogram_stats_at(name, labels, now)
    }

    /// Evicts history that is too old now: what `cleanup_at` does at some
    /// time.
    pub fn cleanup(&mut self)
        ensures
            exists|now: i64| #[trigger] cleaned_at(*old(self), *final(self), now),
            never_decrease(old(self).spec_counters(), final(self).spec_counters()),
    {
        let now = now_millis();
        self.cleanup_at(now);
    }

    /// The state of all metrics now: what `get_snapshot_at` gives at some
    /// time.
    pub fn get_snapshot(&self) -> (r: MetricsSnapshot)
        ensures
            exists|now: i64| #[trigger] is_snapshot_at(*self, r, now),
    {
        let now = now_millis();
        self.get_snapshot_at(now)
    }

    /// The lines of the text form for the first `n` of the given counters:
    /// a counter has a block where a metric of its name is registered as a
    /// counter, else it has none.
    pub open spec fn counters_text(&self, entries: Seq<(String, u64)>, n: int) -> Seq<char>
        decreases n,
    {
        if n <= 0 || n > entries.len() {
            Seq::empty()
        } else {
            let (name, labels) = parsed_key(entries[n - 1].0@);
            let block = if self.spec_metadata().dom().contains(name) && self.spec_metadata()[name].0
                == MetricType::Counter {
                counter_block(name, label_text(labels), self.spec_metadata()[name].1, entries[n - 1].1)
            } else {
                Seq::empty()
            };
            self.counters_text(entries, n - 1) + block
        }
    }

    /// The lines of the text form for the given counters, in their order.
    pub fn render_counters(&self, entries: &Vec<(String, u64)>) -> (r: String)
        ensures
            r@ == self.counters_text(entries@, entries@.len() as int),
    {
        let mut out = String::new();
        let mut i: usize = 0;
        while i < entries.len()
            invariant
                i <= entries@.len(),
                out@ == self.counters_text(entries@, i as int),
            decreases entries@.len() - i,
        {
            let ghost before = out@;
            let (name, labels) = parse_key(entries[i].0.as_str());
            match self.metadata_of(name.as_str()) {
                Some(metadata) => {
                    if metadata.metric_type == MetricType::Counter {
                        let block = render_counter(
                            name.as_str(),
                            &labels,
                            metadata.description.as_str(),
                            entries[i].1,
                        );
                        out.append(block.as_str());
                    } else {
                        assert(out@ =~= before + Seq::<char>::empty());
                    }
                },
                None => {
                    assert(out@ =~= before + Seq::<char>::empty());
                },
            }
            i = i + 1;
        }
        out
    }

    /// The lines of the text form for the first `n` of the given
    /// histograms, each with the values of its samples in nanoseconds: a
    /// histogram has a block, a summary of the sum in seconds and the
    /// count, where it has values and a metric of its name is registered
    /// as a histogram, else it has none.
    pub open spec fn summaries_text(&self, entries: Seq<(String, Vec<u64>)>, n: int) -> Seq<char>
        decreases n,
    {
        if n <= 0 || n > entries.len() {
            Seq::empty()
        } else {
            let (name, labels) = parsed_key(entries[n - 1].0@);
            let values = entries[n - 1].1@;
            let block = if self.spec_metadata().dom().contains(name) && self.spec_metadata()[name].0
                == MetricType::Histogram && values.len() > 0 {
                summary_block(
                    name,
                    label_text(labels),
                    self.spec_metadata()[name].1,
                    seconds_text(stats_of(values).sum as nat),
                    stats_of(values).count,
                )
            } else {
                Seq::empty()
            };
            self.summaries_text(entries, n - 1) + block
        }
    }

    /// The lines of the text form for the given histograms, in their
    /// order.
    pub fn render_summaries(&self, entries: &Vec<(String, Vec<u64>)>) -> (r: String)
        ensures
            r@ == self.summaries_text(entries@, entries@.len() as int),
    {
        let mut out = String::new();
        let mut i: usize = 0;
        while i < entries.len()
            invariant
                i <= entries@.len(),
                out@ == self.summaries_text(entries@, i as int),
            decreases entries@.len() - i,
        {
            let ghost before = out@;
            let (name, labels) = parse_key(entries[i].0.as_str());
            let mut block = String::new();
            match self.metadata_of(name.as_str()) {
                Some(metadata) => {
                    if metadata.metric_type == MetricType::Histogram && entries[i].1.len() > 0 {
                        let stats = compute_stats(&entries[i].1);
                        let sum = seconds_to_string(stats.sum);
                        block =
                        render_summary(
                            name.as_str(),
                            &labels,
                            metadata.description.as_str(),
                            sum.as_str(),
                            stats.count,
                        );
                    }
                },
                None => {},
            }
            out.append(block.as_str());
            i = i + 1;
        }
        out
    }

    /// The text form of the histograms at the time `now`: the summaries of
    /// the histograms that have samples within the retention window, in
    /// some order.
    pub fn prometheus_summaries_at(&self, now: i64) -> (r: String)
        ensures
            exists|snapshot: MetricsSnapshot| #[trigger]
                is_snapshot_at(*self, snapshot, now) && r@ == self.summaries_text(
                    snapshot.histograms@,
                    snapshot.histograms@.len() as int,
                ),
    {
        let snapshot = self.get_snapshot_at(now);
        self.render_summaries(&snapshot.histograms)
    }

    /// The text form of the histograms now: what `prometheus_summaries_at`
    /// gives at some time.
    pub fn prometheus_summaries(&self) -> (r: String)
        ensures
            exists|snapshot: MetricsSnapshot, now: i64| #[trigger]
                is_snapshot_at(*self, snapshot, now) && r@ == self.summaries_text(
                    snapshot.histograms@,
                    snapshot.histograms@.len() as int,
                ),
    {
        let now = now_millis();
        self.prometheus_summaries_at(now)
    }

    /// The text form of all counters: the blocks of the counters in some
    /// order.
    pub fn prometheus_counters(&self) -> (r: String)
        ensures
            exists|entries: Seq<(String, u64)>|
                unique_keys(entries) && map_of(entries) == self.spec_counters() && r@
                    == #[trigger] self.counters_text(entries, entries.len() as int),
    {
        let entries = number_entries(&self.counters);
        self.render_counters(&entries)
    }
}

/// Whether `after` is `before` with `value` added to a counter at the time
/// `now`: the counter, which starts at zero, is raised and stays at the
/// largest count where it would pass it; the increment is noted with its
/// time; nothing else changes.
pub open spec fn incremented_at(
    before: MetricsCollector,
    after: MetricsCollector,
    name: Seq<char>,
    labels: Seq<(Seq<char>, Seq<char>)>,
    value: u64,
    now: i64,
) -> bool {
    let key = key_text(name, labels);
    &&& after.spec_counters() == before.spec_counters().insert(
        key,
        saturating_sum(number_at(before.spec_counters(), key), value),
    )
    &&& after.spec_counter_samples() == before.spec_counter_samples().insert(
        key,
        samples_at(before.spec_counter_samples(), key).push((now, value)),
    )
    &&& after.spec_metadata() == before.spec_metadata()
    &&& after.spec_gauges() == before.spec_gauges()
    &&& after.spec_gauge_samples() == before.spec_gauge_samples()
    &&& after.spec_histograms() == before.spec_histograms()
    &&& after.spec_retention() == before.spec_retention()
    &&& after.spec_error_retention() == before.spec_error_retention()
}

/// Whether `after` is `before` with a gauge set at the time `now`: the
/// gauge holds the value, the setting is noted with its time, nothing else
/// changes.
pub open spec fn gauge_set_at(
    before: MetricsCollector,
    after: MetricsCollector,
    name: Seq<char>,
    labels: Seq<(Seq<char>, Seq<char>)>,
    bits: u64,
    now: i64,
) -> bool {
    let key = key_text(name, labels);
    &&& after.spec_gauges() == before.spec_gauges().insert(key, bits)
    &&& after.spec_gauge_samples() == before.spec_gauge_samples().insert(
        key,
        samples_at(before.spec_gauge_samples(), key).push((now, bits)),
    )
    &&& after.spec_metadata() == before.spec_metadata()
    &&& after.spec_counters() == before.spec_counters()
    &&& after.spec_counter_samples() == before.spec_counter_samples()
    &&& after.spec_histograms() == before.spec_histograms()
    &&& after.spec_retention() == before.spec_retention()
    &&& after.spec_error_retention() == before.spec_error_retention()
}

/// Whether `after` is `before` with a sample added to a histogram at the
/// time `now`; nothing else changes.
pub open spec fn observed_at(
    before: MetricsCollector,
    after: MetricsCollector,
    name: Seq<char>,
    labels: Seq<(Seq<char>, Seq<char>)>,
    nanos: u64,
    now: i64,
) -> bool {
    let key = key_text(name, labels);
    &&& after.spec_histograms() == before.spec_histograms().insert(
        key,
        samples_at(before.spec_histograms(), key).push((now, nanos)),
    )
    &&& after.spec_metadata() == before.spec_metadata()
    &&& after.spec_counters() == before.spec_counters()
    &&& after.spec_counter_samples() == before.spec_counter_samples()
    &&& after.spec_gauges() == before.spec_gauges()
    &&& after.spec_gauge_samples() == before.spec_gauge_samples()
    &&& after.spec_retention() == before.spec_retention()
    &&& after.spec_error_retention() == before.spec_error_retention()
}

/// Whether `after` is `before` with history evicted at the time `now`:
/// increments of counters and settings of gauges older than the regular
/// retention are gone, and samples of histograms older than the
/// retention for errors; current values stay.
pub open spec fn cleaned_at(before: MetricsCollector, after: MetricsCollector, now: i64) -> bool {
    &&& after.spec_counters() == before.spec_counters()
    &&& after.spec_gauges() == before.spec_gauges()
    &&& after.spec_metadata() == before.spec_metadata()
    &&& after.spec_retention() == before.spec_retention()
    &&& after.spec_error_retention() == before.spec_error_retention()
    &&& evicted(
        before.spec_counter_samples(),
        after.spec_counter_samples(),
        now,
        before.spec_retention(),
    )
    &&& evicted(before.spec_gauge_samples(), after.spec_gauge_samples(), now, before.spec_retention())
    &&& evicted(before.spec_histograms(), after.spec_histograms(), now, before.spec_error_retention())
}

/// The statistics of a histogram's samples within the retention window
/// that ends at `now`; nothing for a histogram without any sample.
pub open spec fn stats_at(
    collector: MetricsCollector,
    name: Seq<char>,
    labels: Seq<(Seq<char>, Seq<char>)>,
    now: i64,
) -> Option<HistogramStats> {
    let key = key_text(name, labels);
    if collector.spec_histograms().dom().contains(key) {
        Some(
            stats_of(
                values_of(recent(collector.spec_histograms()[key], now, collector.spec_retention())),
            ),
        )
    } else {
        None
    }
}

/// Whether `snapshot` shows the state of a collector at the time `now`:
/// every counter and gauge once, and once each histogram that has samples
/// within the retention window, with the values of those samples.
pub open spec fn is_snapshot_at(
    collector: MetricsCollector,
    snapshot: MetricsSnapshot,
    now: i64,
) -> bool {
    &&& snapshot.timestamp == now
    &&& unique_keys(snapshot.counters@)
    &&& map_of(snapshot.counters@) == collector.spec_counters()
    &&& unique_keys(snapshot.gauges@)
    &&& map_of(snapshot.gauges@) == collector.spec_gauges()
    &&& unique_keys(snapshot.histograms@)
    &&& forall|i: int|
        0 <= i < snapshot.histograms@.len() ==> {
            let key = (#[trigger] snapshot.histograms@[i]).0@;
            &&& collector.spec_histograms().dom().contains(key)
            &&& snapshot.histograms@[i].1@.len() > 0
            &&& snapshot.histograms@[i].1@ == values_of(
                recent(collector.spec_histograms()[key], now, collector.spec_retention()),
            )
        }
    &&& forall|key: Seq<char>|
        collector.spec_histograms().dom().contains(key) && recent(
            collector.spec_histograms()[key],
            now,
            collector.spec_retention(),
        ).len() > 0 ==> #[trigger] holds_key(snapshot.histograms@, key)
}

/// Whether `after` is `before` with history evicted: the same keys, each
/// with its samples that are younger than `seconds` at the time `now`.
pub open spec fn evicted(
    before: Map<Seq<char>, Seq<Sample>>,
    after: Map<Seq<char>, Seq<Sample>>,
    now: i64,
    seconds: u64,
) -> bool {
    &&& after.dom() == before.dom()
    &&& forall|key: Seq<char>| #[trigger]
        before.dom().contains(key) ==> after[key] == recent(before[key], now, seconds)
}

fn evict(map: &mut SampleMap, now: i64, seconds: u64)
    ensures
        evicted(samples_in(*old(map)), samples_in(*final(map)), now, seconds),
{
    let entries = sample_entries(map);
    let ghost before = samples_in(*map);
    let mut i: usize = 0;
    while i < entries.len()
        invariant
            i <= entries@.len(),
            unique_keys(entries@),
            map_of(entries@).dom() == before.dom(),
            forall|k: int| 0 <= k < entries@.len() ==> (#[trigger] entries@[k]).1@ == before[entries@[k].0@],
            samples_in(*map).dom() == before.dom(),
            forall|k: int|
                0 <= k < i ==> samples_in(*map)[(#[trigger] entries@[k]).0@] == recent(
                    before[entries@[k].0@],
                    now,
                    seconds,
                ),
            forall|k: int|
                i <= k < entries@.len() ==> samples_in(*map)[(#[trigger] entries@[k]).0@]
                    == before[entries@[k].0@],
        decreases entries@.len() - i,
    {
        proof {
            lemma_entry_in_map(entries@, i as int);
        }
        let kept = keep_recent(&entries[i].1, now, seconds);
        let ghost previous = samples_in(*map);
        put_samples(map, entries[i].0.clone(), kept);
        proof {
            assert(samples_in(*map).dom() =~= before.dom());
            assert forall|k: int| 0 <= k < i + 1 implies samples_in(*map)[(
            #[trigger] entries@[k]).0@] == recent(before[entries@[k].0@], now, seconds) by {
                if k < i {
                    assert(entries@[k].0@ != entries@[i as int].0@);
                }
            }
            assert forall|k: int| i + 1 <= k < entries@.len() implies samples_in(*map)[(
            #[trigger] entries@[k]).0@] == before[entries@[k].0@] by {
                assert(entries@[k].0@ != entries@[i as int].0@);
            }
        }
        i = i + 1;
    }
    proof {
        assert forall|key: Seq<char>| #[trigger] before.dom().contains(key) implies samples_in(
            *map,
        )[key] == recent(before[key], now, seconds) by {
            assert(map_of(entries@).dom().contains(key));
            assert(holds_key(entries@, key));
            let k = choose|k: int| 0 <= k < entries@.len() && (#[trigger] entries@[k]).0@ == key;
            assert(samples_in(*map)[entries@[k].0@] == recent(before[entries@[k].0@], now, seconds));
        }
    }
}

} // verus!
