//! The timer: a source that ticks at a fixed interval and keeps no state
//! beyond whether it runs.

use crate::event::{Event, EventKind};
use crate::plugin::Lifecycle;
use vstd::prelude::*;
use vstd::string::*;

verus! {

/// The interval of a timer where none is configured, in seconds.
pub const DEFAULT_TIMER_INTERVAL_SECONDS: u64 = 60;

/// The timer as it is configured.
#[derive(Debug, Clone)]
pub struct TimerPlugin {
    pub name: String,
    pub interval_seconds: u64,
    pub state: Lifecycle,
}

impl TimerPlugin {
    /// A stopped timer that ticks once a minute.
    pub fn new(name: &str) -> (r: Self)
        ensures
            r.name@ == name@,
            r.interval_seconds == DEFAULT_TIMER_INTERVAL_SECONDS,
            !r.state.spec_is_running(),
    {
        TimerPlugin {
            name: String::from_str(name),
            interval_seconds: DEFAULT_TIMER_INTERVAL_SECONDS,
            state: Lifecycle::Stopped,
        }
    }

    /// The same timer with another interval.
    pub fn with_interval(self, seconds: u64) -> (r: Self)
        ensures
            r.name == self.name,
            r.interval_seconds == seconds,
            r.state == self.state,
    {
        let mut plugin = self;
        plugin.interval_seconds = seconds;
        plugin
    }

    /// The event of one tick: a timer tick from this plugin, without
    /// metadata.
    pub fn tick(&self) -> (r: Event)
        ensures
            r.kind is TimerTick,
            r.source@ == self.name@,
            r.metadata@ == Map::<Seq<char>, Seq<char>>::empty(),
    {
        Event::new(EventKind::TimerTick, self.name.as_str())
    }
}

} // verus!
