//! Metrics: counters, gauges and latency samples under canonical keys,
//! with retention of sample history and a text form for scraping.

pub mod clock;
pub mod collector;
pub mod keys;
pub mod record;
pub mod store;
