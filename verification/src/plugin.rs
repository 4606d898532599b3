//! What a source plugin reports when it fails, and the rule that a plugin
//! hands events on only while it runs.

use vstd::prelude::*;
use vstd::string::*;

verus! {

/// Why a source plugin could not start or keep running.
#[derive(Debug, Clone)]
pub enum PluginError {
    Initialization(String),
    Runtime(String),
    Configuration(String),
}

impl PluginError {
    /// The message as it is shown to the operator.
    pub open spec fn spec_to_string(&self) -> Seq<char> {
        match self {
            PluginError::Initialization(msg) => "Plugin initialization error: "@ + msg@,
            PluginError::Runtime(msg) => "Plugin runtime error: "@ + msg@,
            PluginError::Configuration(msg) => "Plugin configuration error: "@ + msg@,
        }
    }

    /// The message as it is shown to the operator.
    pub fn to_string(&self) -> (r: String)
        ensures
            r@ == self.spec_to_string(),
    {
        match self {
            PluginError::Initialization(msg) => crate::text::concat2(
                "Plugin initialization error: ",
                msg.as_str(),
            ),
            PluginError::Runtime(msg) => crate::text::concat2(
                "Plugin runtime error: ",
                msg.as_str(),
            ),
            PluginError::Configuration(msg) => crate::text::concat2(
                "Plugin configuration error: ",
                msg.as_str(),
            ),
        }
    }
}

/// Where a plugin stands in its life: it is created stopped, `start` makes
/// it run, `stop` stops it again.
#[derive(Debug, Clone, Copy, PartialEq, Eq, Structural)]
pub enum Lifecycle {
    Stopped,
    Running,
}

/// What `start` has to do in a given state.
#[derive(Debug, Clone, Copy, PartialEq, Eq, Structural)]
pub enum StartDecision {
    /// The plugin runs already: report success and do nothing.
    AlreadyRunning,
    /// The plugin is stopped: acquire the source.
    Launch,
}

impl Lifecycle {
    /// Whether the plugin runs.
    pub open spec fn spec_is_running(&self) -> bool {
        *self == Lifecycle::Running
    }

    /// Whether the plugin runs.
    pub fn is_running(&self) -> (r: bool)
        ensures
            r == self.spec_is_running(),
    {
        match self {
            Lifecycle::Running => true,
            Lifecycle::Stopped => false,
        }
    }

    /// What a call of `start` does: nothing where the plugin runs, a launch
    /// where it is stopped.
    pub fn on_start(&self) -> (r: StartDecision)
        ensures
            r == (if self.spec_is_running() {
                StartDecision::AlreadyRunning
            } else {
                StartDecision::Launch
            }),
    {
        match self {
            Lifecycle::Running => StartDecision::AlreadyRunning,
            Lifecycle::Stopped => StartDecision::Launch,
        }
    }

    /// The state after a launch that ended with `launched`: running where it
    /// succeeded, stopped where it failed.
    pub fn after_launch(&self, launched: bool) -> (r: Lifecycle)
        ensures
            r.spec_is_running() == (self.spec_is_running() || launched),
    {
        if launched {
            Lifecycle::Running
        } else {
            *self
        }
    }

    /// The state after `stop`, which is safe in every state.
    pub fn after_stop(&self) -> (r: Lifecycle)
        ensures
            !r.spec_is_running(),
    {
        Lifecycle::Stopped
    }
}

} // verus!
