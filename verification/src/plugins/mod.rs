//! The logic of the source plugins: what a raw record means, which
//! records pass a plugin's filters, and which events they become. Hooks,
//! trace sessions and watchers belong to the caller.

pub mod file_watcher;
pub mod process_monitor;
pub mod registry_monitor;
pub mod timer;
pub mod window_watcher;
pub mod wire;
