//! The event bus: a bounded channel from the plugins to the dispatch
//! loop. Sending never waits; an event that finds the bus full is dropped
//! and counted.

use crate::event::Event;
use crate::metrics::collector::{
    lemma_never_decrease_same, never_decrease, number_at, MetricsCollector,
};
use crate::metrics::keys::{key_text, lemma_place_of, with_pair};
use crate::metrics::record::{counted, record_event_dropped, record_plugin_event, two_labels};
use vstd::prelude::*;

verus! {

/// `tokio::sync::mpsc::Sender`.
#[verifier::external_type_specification]
#[verifier::external_body]
#[verifier::reject_recursive_types(T)]
pub struct ExSender<T>(tokio::sync::mpsc::Sender<T>);

/// `tokio::sync::mpsc::Receiver`.
#[verifier::external_type_specification]
#[verifier::external_body]
#[verifier::reject_recursive_types(T)]
pub struct ExReceiver<T>(tokio::sync::mpsc::Receiver<T>);

/// The sending half of the bus.
pub type EventSender = tokio::sync::mpsc::Sender<Event>;

/// The receiving half of the bus.
pub type EventReceiver = tokio::sync::mpsc::Receiver<Event>;

/// The capacity of the bus where none is configured.
pub const DEFAULT_EVENT_BUFFER_SIZE: usize = 1000;

/// The largest capacity that a bus can have: the most that the channel's
/// semaphore can count.
pub open spec fn max_capacity() -> int {
    usize::MAX as int / 8
}

/// Adds two counts.
pub fn add(left: u64, right: u64) -> (sum: u64)
    requires
        left + right <= u64::MAX,
    ensures
        sum == left + right,
{
    left + right
}

/// Whether a bus of this capacity can be made.
pub fn is_valid_capacity(buffer: usize) -> (r: bool)
    ensures
        r == (0 < buffer <= max_capacity()),
{
    0 < buffer && buffer <= usize::MAX / 8
}

/// The room that a bus was made with, as its sending half tells it by
/// `Sender::max_capacity`: the bound given when the channel was made,
/// which stays the same however many events wait.
pub uninterp spec fn sender_capacity(sender: EventSender) -> usize;

/// The room that a bus was made with, as its receiving half tells it by
/// `Receiver::max_capacity`.
pub uninterp spec fn receiver_capacity(receiver: EventReceiver) -> usize;

/// Calls `tokio::sync::mpsc::channel`: a bounded channel with room for
/// `buffer` events, which is the bound that both halves tell of from then
/// on. The call panics for a capacity of zero and for one beyond what the
/// channel's semaphore can count, so both are left out.
#[verifier::external_body]
pub fn create_event_bus(buffer: usize) -> (r: (EventSender, EventReceiver))
    requires
        0 < buffer <= max_capacity(),
    ensures
        sender_capacity(r.0) == buffer,
        receiver_capacity(r.1) == buffer,
{
    tokio::sync::mpsc::channel(buffer)
}

/// A bus with room for `buffer` events, where such a bus can be made.
pub fn open_event_bus(buffer: usize) -> (r: Option<(EventSender, EventReceiver)>)
    ensures
        r is Some <==> 0 < buffer <= max_capacity(),
        r matches Some(bus) ==> sender_capacity(bus.0) == buffer && receiver_capacity(bus.1)
            == buffer,
{
    if is_valid_capacity(buffer) {
        Some(create_event_bus(buffer))
    } else {
        None
    }
}

/// The capacity that a bus gets for a configured one: the configured
/// capacity where a bus of it can be made, else the default.
pub open spec fn capacity_for(configured: usize) -> usize {
    if 0 < configured <= max_capacity() {
        configured
    } else {
        DEFAULT_EVENT_BUFFER_SIZE
    }
}

/// The capacity that a bus gets for a configured one.
pub fn usable_capacity(configured: usize) -> (r: usize)
    ensures
        r == capacity_for(configured),
        0 < r <= max_capacity(),
{
    if is_valid_capacity(configured) {
        configured
    } else {
        DEFAULT_EVENT_BUFFER_SIZE
    }
}

/// A bus for a configured capacity: with room for that many events where
/// such a bus can be made, else with the default room.
pub fn open_bus_for(configured: usize) -> (r: (EventSender, EventReceiver))
    ensures
        sender_capacity(r.0) == capacity_for(configured),
        receiver_capacity(r.1) == capacity_for(configured),
{
    create_event_bus(usable_capacity(configured))
}

/// What came of offering an event to the bus without waiting.
pub enum TrySend {
    /// The event is in the channel.
    Sent,
    /// The channel is full; the event comes back.
    Full(Event),
    /// The receiving half is gone; the event comes back.
    Closed(Event),
}

/// Calls `Sender::try_send`. Which of the three outcomes comes back is up
/// to the channel; an event that is not sent comes back as it was given.
#[verifier::external_body]
pub(crate) fn try_send(sender: &EventSender, event: Event) -> (r: TrySend)
    ensures
        r matches TrySend::Full(e) ==> e == event,
        r matches TrySend::Closed(e) ==> e == event,
{
    match sender.try_send(event) {
        Ok(()) => TrySend::Sent,
        Err(tokio::sync::mpsc::error::TrySendError::Full(e)) => TrySend::Full(e),
        Err(tokio::sync::mpsc::error::TrySendError::Closed(e)) => TrySend::Closed(e),
    }
}

/// What came of asking the bus for an event without waiting.
pub enum TryReceive {
    /// An event was waiting.
    Event(Event),
    /// No event is waiting.
    Empty,
    /// No event is waiting and all sending halves are gone.
    Disconnected,
}

/// Calls `Receiver::try_recv`. Which outcome comes back is up to the
/// channel.
#[verifier::external_body]
pub(crate) fn try_receive(receiver: &mut EventReceiver) -> TryReceive {
    match receiver.try_recv() {
        Ok(event) => TryReceive::Event(event),
        Err(tokio::sync::mpsc::error::TryRecvError::Empty) => TryReceive::Empty,
        Err(tokio::sync::mpsc::error::TryRecvError::Disconnected) => TryReceive::Disconnected,
    }
}

/// What became of an event that a plugin produced.
#[derive(Debug, Clone, Copy, PartialEq, Eq, Structural)]
pub enum EmitOutcome {
    /// The plugin does not run: the bus was not touched.
    Suppressed,
    /// The event is on the bus.
    Sent,
    /// The bus was full: the event is dropped and counted.
    Dropped,
    /// The bus is closed: the event is dropped.
    Closed,
}

/// What emitting does to the metrics, given what the bus answered: an
/// event that was sent adds one to the counter of events that its plugin
/// generated, under the plugin's name and the event's kind; a dropped
/// event adds one to the counter of dropped events; every other outcome
/// leaves all counters alone.
pub open spec fn accounted(
    before: &MetricsCollector,
    after: &MetricsCollector,
    outcome: EmitOutcome,
    plugin: Seq<char>,
    kind: Seq<char>,
) -> bool {
    match outcome {
        EmitOutcome::Sent => counted(
            before,
            after,
            "plugins_events_generated_total"@,
            two_labels("plugin"@, plugin, "type"@, kind),
            1,
        ),
        EmitOutcome::Dropped => counted(before, after, "events_dropped_total"@, Seq::empty(), 1),
        _ => after.spec_counters() == before.spec_counters(),
    }
}

/// Takes note of what the bus answered to the offer of an event of the
/// given plugin and kind.
pub fn account(answer: TrySend, plugin: &str, kind: &str, metrics: &mut MetricsCollector) -> (r:
    EmitOutcome)
    ensures
        r == (match answer {
            TrySend::Sent => EmitOutcome::Sent,
            TrySend::Full(_) => EmitOutcome::Dropped,
            TrySend::Closed(_) => EmitOutcome::Closed,
        }),
        accounted(old(metrics), final(metrics), r, plugin@, kind@),
        never_decrease(old(metrics).spec_counters(), final(metrics).spec_counters()),
{
    match answer {
        TrySend::Sent => {
            record_plugin_event(metrics, plugin, kind);
            EmitOutcome::Sent
        },
        TrySend::Full(_) => {
            record_event_dropped(metrics);
            EmitOutcome::Dropped
        },
        TrySend::Closed(_) => {
            proof {
                lemma_never_decrease_same(metrics.spec_counters());
            }
            EmitOutcome::Closed
        },
    }
}

/// Hands an event of a plugin to the bus. While the plugin does not run
/// the bus is not touched; else the event is offered without waiting, an
/// event that is sent is counted for its plugin, and a full bus counts
/// one dropped event.
pub fn emit(
    running: bool,
    sender: &EventSender,
    event: Event,
    metrics: &mut MetricsCollector,
) -> (r: EmitOutcome)
    ensures
        !running <==> r == EmitOutcome::Suppressed,
        accounted(old(metrics), final(metrics), r, event.source@, event.kind.spec_name()),
        never_decrease(old(metrics).spec_counters(), final(metrics).spec_counters()),
{
    if !running {
        proof {
            lemma_never_decrease_same(metrics.spec_counters());
        }
        return EmitOutcome::Suppressed;
    }
    let plugin = event.source.clone();
    let kind = event.kind.name();
    let answer = try_send(sender, event);
    account(answer, plugin.as_str(), kind.as_str(), metrics)
}

/// Where the counter of dropped events has not reached the largest count,
/// a dropped event raises it by exactly one, and every other outcome
/// leaves it as it is.
pub proof fn lemma_drop_counts_one(
    before: &MetricsCollector,
    after: &MetricsCollector,
    outcome: EmitOutcome,
    plugin: Seq<char>,
    kind: Seq<char>,
)
    requires
        accounted(before, after, outcome, plugin, kind),
        number_at(before.spec_counters(), "events_dropped_total"@) < u64::MAX,
    ensures
        number_at(after.spec_counters(), "events_dropped_total"@) == number_at(
            before.spec_counters(),
            "events_dropped_total"@,
        ) + (if outcome == EmitOutcome::Dropped {
            1int
        } else {
            0int
        }),
{
    if outcome == EmitOutcome::Sent {
        let labels = two_labels("plugin"@, plugin, "type"@, kind);
        let key = key_text("plugins_events_generated_total"@, labels);
        reveal_strlit("plugins_events_generated_total");
        reveal_strlit("events_dropped_total");
        lemma_two_labels(plugin, kind);
        assert(key[0] == 'p');
        assert("events_dropped_total"@[0] == 'e');
        assert(key != "events_dropped_total"@);
    }
}

/// Two labels of different keys are two labels.
proof fn lemma_two_labels(plugin: Seq<char>, kind: Seq<char>)
    ensures
        two_labels("plugin"@, plugin, "type"@, kind).len() > 0,
{
    let one = with_pair(Seq::empty(), "plugin"@, plugin);
    assert(one.len() == 1);
    lemma_place_of(one, "type"@);
}

} // verus!
