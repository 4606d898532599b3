//! Core of an event automation engine: events, rule matching, action
//! policies, configuration rules and metrics bookkeeping.

pub mod accounting;
pub mod actions;
pub mod bus;
pub mod collections;
pub mod config;
pub mod engine;
pub mod event;
pub mod metrics;
pub mod pattern;
pub mod plugin;
pub mod plugins;
pub mod rules;
pub mod script;
pub mod text;
