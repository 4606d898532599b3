//! The clocks behind the metrics: the wall clock that stamps samples, and
//! the monotonic clock that measures how long something took.

use vstd::prelude::*;

verus! {

/// Calls `chrono::Utc::now` and takes `DateTime::timestamp_millis` of it:
/// the current time in milliseconds since the epoch. Nothing is promised
/// of it; two readings need not even ascend. `Utc::now` panics where the
/// system clock stands before the epoch.
#[verifier::external_body]
pub(crate) fn now_millis() -> i64 {
    chrono::Utc::now().timestamp_millis()
}

/// Calls `std::time::Instant::elapsed` and takes `Duration::as_nanos` of
/// it: the time since `start` in nanoseconds. Nothing is promised of it.
#[verifier::external_body]
pub(crate) fn nanos_since(start: &std::time::Instant) -> u64 {
    start.elapsed().as_nanos() as u64
}

} // verus!
