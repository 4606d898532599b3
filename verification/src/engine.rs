//! The engine supervisor: what a configuration turns into, which rules an
//! event triggers, what a round of the dispatch loop does, and what a
//! reload changes. Starting plugins belongs to the caller.

use crate::accounting::{
    counters_after, dispatch_recorded, dispatch_recorded_in, is_timed_dispatch, Triggered,
};
use crate::actions::{
    ActionExecutor, ExecuteAction, LogAction, LogLevel, Outcome, PowerShellAction,
};
use crate::config::{
    problem_of, trigger_problem, ActionConfig, Config, RuleConfig,
    SourceConfig, SourceType, TriggerConfig,
};
use crate::bus::{try_receive, EventReceiver, TryReceive};
use crate::event::{Event, EventKind, RegistryChangeType};
use crate::metrics::collector::{
    lemma_never_decrease_chain, lemma_never_decrease_same, never_decrease, MetricsCollector,
};
use crate::metrics::record::{counted, record_plugin_error, two_labels};
use crate::pattern::{glob_compiles, regex_compiles};
use crate::plugin::PluginError;
use crate::plugins::file_watcher::{ChangeKind, FileWatcherPlugin};
use crate::plugins::process_monitor::ProcessMonitorPlugin;
use crate::plugins::registry_monitor::{RegistryMonitorPlugin, RegistryRoot};
use crate::plugins::window_watcher::WindowEventPlugin;
use crate::rules::{
    lemma_matching_indices, matching_indices, matching_rules, EventKindMatcher, FileEventType, FilePatternMatcher, Matcher,
    Rule, WindowEventType, WindowMatcher,
};
use crate::script::ScriptErrorBehavior;
use crate::text::{concat2, concat3, decimal, is_prefix, opt_text, u64_to_string};
use vstd::prelude::*;
use vstd::string::*;

verus! {

/// The file extension of a path, as `std::path::Path::extension` finds it
/// on the platform the crate is built for.
pub uninterp spec fn path_extension(path: Seq<char>) -> Option<Seq<char>>;

/// Calls `std::path::Path::extension`; the extension comes back as text.
#[verifier::external_body]
fn extension_of(path: &str) -> (r: Option<String>)
    ensures
        r is Some <==> path_extension(path@) is Some,
        r is Some ==> r->0@ == path_extension(path@)->0,
{
    std::path::Path::new(path).extension().map(|e| e.to_string_lossy().into_owned())
}

/// How many plugins run and how many rules are loaded.
#[derive(Debug, Clone, Copy, PartialEq, Eq, Structural)]
pub struct EngineStatus {
    pub active_plugins: usize,
    pub active_rules: usize,
}

/// Why the engine could not do what was asked.
#[derive(Debug, Clone)]
pub enum EngineError {
    Config(String),
    PluginInit(String, String),
}

impl EngineError {
    /// The message as it is shown to the operator.
    pub open spec fn spec_to_string(&self) -> Seq<char> {
        match self {
            EngineError::Config(msg) => "Configuration error: "@ + msg@,
            EngineError::PluginInit(name, msg) => "Plugin '"@ + name@ + "' initialization error: "@
                + msg@,
        }
    }

    /// The message as it is shown to the operator.
    pub fn to_string(&self) -> (r: String)
        ensures
            r@ == self.spec_to_string(),
    {
        match self {
            EngineError::Config(msg) => concat2("Configuration error: ", msg.as_str()),
            EngineError::PluginInit(name, msg) => {
                let mut out = concat3("Plugin '", name.as_str(), "' initialization error: ");
                out.append(msg.as_str());
                out
            },
        }
    }
}

/// A plugin as it is configured, ready to be started.
#[derive(Debug, Clone)]
pub enum PluginSpec {
    FileWatcher(FileWatcherPlugin),
    WindowWatcher(WindowEventPlugin),
    ProcessMonitor(ProcessMonitorPlugin),
    RegistryMonitor(RegistryMonitorPlugin),
}

/// The views of a list of texts.
pub open spec fn texts(list: Seq<String>) -> Seq<Seq<char>> {
    list.map_values(|s: String| s@)
}

/// A copy of a list of texts.
pub(crate) fn clone_strings(list: &Vec<String>) -> (r: Vec<String>)
    ensures
        r@ == list@,
{
    let mut out: Vec<String> = Vec::new();
    let mut i: usize = 0;
    while i < list.len()
        invariant
            i <= list@.len(),
            out@ == list@.subrange(0, i as int),
        decreases list@.len() - i,
    {
        out.push(list[i].clone());
        i = i + 1;
        assert(out@ =~= list@.subrange(0, i as int));
    }
    assert(out@ =~= list@);
    out
}

fn clone_opt(text: &Option<String>) -> (r: Option<String>)
    ensures
        r == *text,
{
    match text {
        Some(t) => Some(t.clone()),
        None => None,
    }
}

/// The filter that a window observer keeps of a configured pattern: the
/// pattern where it is a regular expression, none else.
pub open spec fn kept_filter(pattern: Option<String>) -> Option<Seq<char>> {
    match pattern {
        Some(p) => if regex_compiles(p@) {
            Some(p@)
        } else {
            None
        },
        None => None,
    }
}

/// Whether `spec` is the plugin that a source configuration asks for.
pub open spec fn is_plugin_for(config: SourceConfig, spec: PluginSpec) -> bool {
    match config.source_type {
        SourceType::FileWatcher { paths, pattern, recursive } => {
            &&& spec matches PluginSpec::FileWatcher(p)
            &&& p.name@ == config.name@
            &&& p.paths@ == paths@
            &&& opt_text(p.pattern) == opt_text(pattern)
            &&& p.recursive == recursive
            &&& !p.state.spec_is_running()
        },
        SourceType::WindowWatcher { title_pattern, process_pattern } => {
            &&& spec matches PluginSpec::WindowWatcher(p)
            &&& p.name@ == config.name@
            &&& opt_text(p.title_filter) == kept_filter(title_pattern)
            &&& opt_text(p.process_filter) == kept_filter(process_pattern)
            &&& p.previous_hwnd is None
            &&& !p.state.spec_is_running()
        },
        SourceType::ProcessMonitor {
            process_name,
            monitor_threads,
            monitor_files,
            monitor_network,
        } => {
            &&& spec matches PluginSpec::ProcessMonitor(p)
            &&& p.name@ == config.name@
            &&& opt_text(p.filter_name) == opt_text(process_name)
            &&& p.monitor_threads == monitor_threads
            &&& p.monitor_files == monitor_files
            &&& p.monitor_network == monitor_network
            &&& !p.state.spec_is_running()
        },
        SourceType::RegistryMonitor { root, key, recursive } => {
            &&& spec matches PluginSpec::RegistryMonitor(p)
            &&& p.name@ == config.name@
            &&& p.keys@.len() == 1
            &&& Some(p.keys@[0].root) == RegistryRoot::spec_parse(root@)
            &&& p.keys@[0].path@ == key@
            &&& p.keys@[0].watch_tree == recursive
            &&& !p.state.spec_is_running()
        },
    }
}

/// Whether a source configuration names a registry root that is unknown.
pub open spec fn has_unknown_root(config: SourceConfig) -> bool {
    config.source_type matches SourceType::RegistryMonitor { root, .. } && RegistryRoot::spec_parse(
        root@,
    ) is None
}

/// The plugin that a source configuration asks for, not yet started. It
/// fails exactly for a registry monitor with an unknown root.
pub fn create_plugin(config: &SourceConfig) -> (r: Result<PluginSpec, EngineError>)
    ensures
        r is Err <==> has_unknown_root(*config),
        r matches Ok(spec) ==> is_plugin_for(*config, spec),
        r matches Err(e) ==> (e matches EngineError::Config(m) && config.source_type matches SourceType::RegistryMonitor {
            root,
            ..
        } && m@ == "Invalid registry root: "@ + root@),
{
    match &config.source_type {
        SourceType::FileWatcher { paths, pattern, recursive } => {
            let mut plugin = FileWatcherPlugin::new(
                config.name.as_str(),
                clone_strings(paths),
            ).with_recursive(*recursive);
            if let Some(p) = pattern {
                plugin = plugin.with_pattern(p.as_str());
            }
            Ok(PluginSpec::FileWatcher(plugin))
        },
        SourceType::WindowWatcher { title_pattern, process_pattern } => {
            let mut plugin = WindowEventPlugin::new(config.name.as_str());
            if let Some(title) = title_pattern {
                plugin = plugin.with_title_filter(title.as_str());
            }
            if let Some(process) = process_pattern {
                plugin = plugin.with_process_filter(process.as_str());
            }
            Ok(PluginSpec::WindowWatcher(plugin))
        },
        SourceType::ProcessMonitor {
            process_name,
            monitor_threads,
            monitor_files,
            monitor_network,
        } => {
            let mut plugin = ProcessMonitorPlugin::new(
                config.name.as_str(),
            ).with_thread_monitoring(*monitor_threads).with_file_monitoring(
                *monitor_files,
            ).with_network_monitoring(*monitor_network);
            if let Some(name) = process_name {
                plugin = plugin.with_name_filter(name.as_str());
            }
            Ok(PluginSpec::ProcessMonitor(plugin))
        },
        SourceType::RegistryMonitor { root, key, recursive } => {
            match RegistryRoot::parse(root.as_str()) {
                Some(parsed) => {
                    let plugin = if *recursive {
                        RegistryMonitorPlugin::new(config.name.as_str()).watch_key_recursive(
                            parsed,
                            key.as_str(),
                        )
                    } else {
                        RegistryMonitorPlugin::new(config.name.as_str()).watch_key(
                            parsed,
                            key.as_str(),
                        )
                    };
                    Ok(PluginSpec::RegistryMonitor(plugin))
                },
                None => Err(
                    EngineError::Config(concat2("Invalid registry root: ", root.as_str())),
                ),
            }
        },
    }
}

/// The kind that stands for all events of a trigger that is matched by
/// kind alone.
pub open spec fn is_template(trigger: TriggerConfig, kind: EventKind) -> bool {
    match trigger {
        TriggerConfig::WindowCreated => kind is WindowCreated,
        TriggerConfig::ProcessStarted { .. } => kind is ProcessStarted,
        TriggerConfig::ProcessStopped { .. } => kind is ProcessStopped,
        TriggerConfig::RegistryChanged { .. } => kind is RegistryChanged,
        TriggerConfig::Timer { .. } => kind is TimerTick,
        _ => false,
    }
}

/// Whether `matcher` is the matcher that a trigger asks for: file triggers
/// ask for a file matcher of their kind with the glob held against the
/// file name; focus triggers ask for a window matcher with their filters;
/// the other triggers ask for events of their kind.
pub open spec fn is_matcher_for(trigger: TriggerConfig, matcher: Matcher) -> bool {
    match trigger {
        TriggerConfig::FileCreated { pattern } => is_file_matcher(
            matcher,
            FileEventType::Created,
            pattern,
        ),
        TriggerConfig::FileModified { pattern } => is_file_matcher(
            matcher,
            FileEventType::Modified,
            pattern,
        ),
        TriggerConfig::FileDeleted { pattern } => is_file_matcher(
            matcher,
            FileEventType::Deleted,
            pattern,
        ),
        TriggerConfig::WindowFocused { title_contains, process_name } => is_window_matcher(
            matcher,
            WindowEventType::Focused,
            title_contains,
            process_name,
        ),
        TriggerConfig::WindowUnfocused { title_contains, process_name } => is_window_matcher(
            matcher,
            WindowEventType::Unfocused,
            title_contains,
            process_name,
        ),
        _ => matcher matches Matcher::EventKind(m) && is_template(trigger, m.kind),
    }
}

/// Whether `matcher` is a file matcher of the given kind and glob.
pub open spec fn is_file_matcher(
    matcher: Matcher,
    event_type: FileEventType,
    pattern: Option<String>,
) -> bool {
    &&& matcher matches Matcher::FilePattern(m)
    &&& m.spec_event_type() == event_type
    &&& m.spec_path_pattern() is None
    &&& m.spec_file_pattern() == opt_text(pattern)
}

/// Whether `matcher` is a window matcher of the given kind and filters.
pub open spec fn is_window_matcher(
    matcher: Matcher,
    event_type: WindowEventType,
    title: Option<String>,
    process: Option<String>,
) -> bool {
    &&& matcher matches Matcher::Window(m)
    &&& m.event_type == event_type
    &&& m.title_contains == title
    &&& m.process_name == process
}

/// Whether `rule` is the rule that a rule configuration asks for.
pub open spec fn is_rule_for(config: RuleConfig, rule: Rule) -> bool {
    &&& rule.name@ == config.name@
    &&& opt_text(rule.description) == opt_text(config.description)
    &&& rule.enabled == config.enabled
    &&& is_matcher_for(config.trigger, rule.matcher)
}

/// Calls `to_string` on the glob crate's error: its message, of which
/// nothing is promised.
#[verifier::external_body]
fn pattern_error_text(error: &glob::PatternError) -> String {
    error.to_string()
}

/// Whether an error is the one for a glob that does not compile: a
/// configuration error whose message begins with `Invalid pattern: ` and
/// goes on with what the glob crate says of the pattern.
pub open spec fn is_pattern_error(error: EngineError) -> bool {
    error matches EngineError::Config(m) && is_prefix("Invalid pattern: "@, m@)
}

fn file_matcher(base: FilePatternMatcher, pattern: &Option<String>) -> (r: Result<
    Matcher,
    EngineError,
>)
    requires
        base.spec_path_pattern() is None,
        base.spec_file_pattern() is None,
    ensures
        r is Err <==> (pattern matches Some(p) && !glob_compiles(p@)),
        r matches Ok(m) ==> is_file_matcher(m, base.spec_event_type(), *pattern),
        r matches Err(e) ==> is_pattern_error(e),
{
    match pattern {
        Some(p) => match base.with_file_pattern(p.as_str()) {
            Ok(matcher) => Ok(Matcher::FilePattern(matcher)),
            Err(e) => {
                let why = pattern_error_text(&e);
                let text = concat2("Invalid pattern: ", why.as_str());
                assert(text@.subrange(0, "Invalid pattern: "@.len() as int) =~= "Invalid pattern: "@);
                Err(EngineError::Config(text))
            },
        },
        None => Ok(Matcher::FilePattern(base)),
    }
}

/// The rule that a rule configuration asks for. It fails, with a
/// configuration error, exactly where the trigger holds a glob that does
/// not compile.
pub fn create_rule(config: &RuleConfig) -> (r: Result<Rule, EngineError>)
    ensures
        r is Err <==> trigger_problem(*config) is Some,
        r matches Ok(rule) ==> is_rule_for(*config, rule),
        r matches Err(e) ==> is_pattern_error(e),
{
    let built = match &config.trigger {
        TriggerConfig::FileCreated { pattern } => file_matcher(
            FilePatternMatcher::created(),
            pattern,
        ),
        TriggerConfig::FileModified { pattern } => file_matcher(
            FilePatternMatcher::modified(),
            pattern,
        ),
        TriggerConfig::FileDeleted { pattern } => file_matcher(
            FilePatternMatcher::deleted(),
            pattern,
        ),
        TriggerConfig::WindowFocused { title_contains, process_name } => Ok(
            Matcher::Window(
                WindowMatcher {
                    event_type: WindowEventType::Focused,
                    title_contains: clone_opt(title_contains),
                    process_name: clone_opt(process_name),
                },
            ),
        ),
        TriggerConfig::WindowUnfocused { title_contains, process_name } => Ok(
            Matcher::Window(
                WindowMatcher {
                    event_type: WindowEventType::Unfocused,
                    title_contains: clone_opt(title_contains),
                    process_name: clone_opt(process_name),
                },
            ),
        ),
        TriggerConfig::WindowCreated => Ok(
            Matcher::EventKind(
                EventKindMatcher {
                    kind: EventKind::WindowCreated { hwnd: 0, title: String::new(), process_id: 0 },
                },
            ),
        ),
        TriggerConfig::ProcessStarted { process_name: _ } => Ok(
            Matcher::EventKind(
                EventKindMatcher {
                    kind: EventKind::ProcessStarted {
                        pid: 0,
                        parent_pid: 0,
                        name: String::new(),
                        path: String::new(),
                        command_line: String::new(),
                        session_id: 0,
                        user: String::new(),
                    },
                },
            ),
        ),
        TriggerConfig::ProcessStopped { process_name: _ } => Ok(
            Matcher::EventKind(
                EventKindMatcher {
                    kind: EventKind::ProcessStopped { pid: 0, name: String::new(), exit_code: None },
                },
            ),
        ),
        TriggerConfig::RegistryChanged { value_name: _ } => Ok(
            Matcher::EventKind(
                EventKindMatcher {
                    kind: EventKind::RegistryChanged {
                        root: String::new(),
                        key: String::new(),
                        value_name: None,
                        change_type: RegistryChangeType::Modified,
                    },
                },
            ),
        ),
        TriggerConfig::Timer { interval_seconds: _ } => Ok(
            Matcher::EventKind(EventKindMatcher { kind: EventKind::TimerTick }),
        ),
    };
    match built {
        Err(e) => Err(e),
        Ok(matcher) => {
            let mut rule = Rule::new(config.name.as_str(), matcher);
            if let Some(desc) = &config.description {
                rule = rule.with_description(desc.as_str());
            }
            Ok(rule.with_enabled(config.enabled))
        },
    }
}

/// The script that presses the media key for playing and pausing.
pub open spec fn media_script() -> Seq<char> {
    "\nAdd-Type @\"\nusing System;\nusing System.Runtime.InteropServices;\npublic class MediaKeys {\n    [DllImport(\"user32.dll\", CharSet = CharSet.Auto, CallingConvention = CallingConvention.StdCall)]\n    public static extern void keybd_event(byte bVk, byte bScan, uint dwFlags, UIntPtr dwExtraInfo);\n    public const byte VK_MEDIA_PLAY_PAUSE = 0xB3;\n    public static void PlayPause() {\n        keybd_event(VK_MEDIA_PLAY_PAUSE, 0, 0, UIntPtr.Zero);\n        keybd_event(VK_MEDIA_PLAY_PAUSE, 0, 2, UIntPtr.Zero);\n    }\n}\n\"@\n[MediaKeys]::PlayPause()\n"@
}

/// An action as it is configured, ready to be handed to a runner.
#[derive(Debug, Clone)]
pub enum ActionSpec {
    Execute(ExecuteAction),
    PowerShell(PowerShellAction),
    Log(LogAction),
    Script {
        script_path: String,
        function_name: String,
        timeout_ms: u64,
        on_error: ScriptErrorBehavior,
    },
}

/// The policy that a configured text names; `Fail` where it names none.
pub open spec fn policy_of(text: Seq<char>) -> ScriptErrorBehavior {
    match ScriptErrorBehavior::spec_parse(text) {
        Some(b) => b,
        None => ScriptErrorBehavior::Fail,
    }
}

/// Whether `spec` is the action that an action configuration asks for.
/// Notifications and HTTP requests are logged; a media command presses
/// the key for playing and pausing, whatever the command.
pub open spec fn is_action_for(config: ActionConfig, spec: ActionSpec) -> bool {
    match config {
        ActionConfig::Execute { command, args, working_dir } => {
            &&& spec matches ActionSpec::Execute(a)
            &&& a.command@ == command@
            &&& a.args@ == args@
            &&& opt_text(a.working_dir) == opt_text(working_dir)
            &&& a.timeout_seconds == Some(30u64)
        },
        ActionConfig::PowerShell { script, working_dir } => {
            &&& spec matches ActionSpec::PowerShell(a)
            &&& a.script@ == script@
            &&& opt_text(a.working_dir) == opt_text(working_dir)
        },
        ActionConfig::Log { message, level } => {
            &&& spec matches ActionSpec::Log(a)
            &&& a.message@ == message@
            &&& a.level == LogLevel::spec_parse(level@)
        },
        ActionConfig::Notify { title, message } => {
            &&& spec matches ActionSpec::Log(a)
            &&& a.message@ == title@ + ": "@ + message@
            &&& a.level == LogLevel::Info
        },
        ActionConfig::HttpRequest { url, .. } => {
            &&& spec matches ActionSpec::Log(a)
            &&& a.message@ == "HTTP request to: "@ + url@
            &&& a.level == LogLevel::Info
        },
        ActionConfig::Media { .. } => {
            &&& spec matches ActionSpec::PowerShell(a)
            &&& a.script@ == media_script()
            &&& a.working_dir is None
        },
        ActionConfig::Script { script_path, function_name, timeout_ms, on_error } => {
            &&& spec matches ActionSpec::Script {
                script_path: path,
                function_name: function,
                timeout_ms: budget,
                on_error: policy,
            }
            &&& path@ == script_path@
            &&& function@ == function_name@
            &&& budget == (match timeout_ms {
                Some(t) => t,
                None => 30000,
            })
            &&& policy == policy_of(on_error@)
        },
    }
}

/// The action that an action configuration asks for.
pub fn create_action(config: &ActionConfig) -> (r: ActionSpec)
    ensures
        is_action_for(*config, r),
{
    match config {
        ActionConfig::Execute { command, args, working_dir } => {
            let mut action = ExecuteAction::new(command.as_str()).with_args(clone_strings(args));
            if let Some(dir) = working_dir {
                action = action.with_working_dir(dir.as_str());
            }
            ActionSpec::Execute(action)
        },
        ActionConfig::PowerShell { script, working_dir } => {
            let mut action = PowerShellAction::new(script.as_str());
            if let Some(dir) = working_dir {
                action = action.with_working_dir(dir.as_str());
            }
            ActionSpec::PowerShell(action)
        },
        ActionConfig::Log { message, level } => ActionSpec::Log(
            LogAction::new(message.as_str()).with_level(LogLevel::parse(level.as_str())),
        ),
        ActionConfig::Notify { title, message } => {
            let text = concat3(title.as_str(), ": ", message.as_str());
            ActionSpec::Log(LogAction::new(text.as_str()))
        },
        ActionConfig::HttpRequest { url, .. } => {
            let text = concat2("HTTP request to: ", url.as_str());
            ActionSpec::Log(LogAction::new(text.as_str()))
        },
        ActionConfig::Media { .. } => ActionSpec::PowerShell(
            PowerShellAction::new(
                "\nAdd-Type @\"\nusing System;\nusing System.Runtime.InteropServices;\npublic class MediaKeys {\n    [DllImport(\"user32.dll\", CharSet = CharSet.Auto, CallingConvention = CallingConvention.StdCall)]\n    public static extern void keybd_event(byte bVk, byte bScan, uint dwFlags, UIntPtr dwExtraInfo);\n    public const byte VK_MEDIA_PLAY_PAUSE = 0xB3;\n    public static void PlayPause() {\n        keybd_event(VK_MEDIA_PLAY_PAUSE, 0, 0, UIntPtr.Zero);\n        keybd_event(VK_MEDIA_PLAY_PAUSE, 0, 2, UIntPtr.Zero);\n    }\n}\n\"@\n[MediaKeys]::PlayPause()\n",
            ),
        ),
        ActionConfig::Script { script_path, function_name, timeout_ms, on_error } => {
            let policy = match ScriptErrorBehavior::parse(on_error.as_str()) {
                Ok(b) => b,
                Err(_) => ScriptErrorBehavior::Fail,
            };
            let budget: u64 = match timeout_ms {
                Some(t) => *t,
                None => 30000,
            };
            ActionSpec::Script {
                script_path: script_path.clone(),
                function_name: function_name.clone(),
                timeout_ms: budget,
                on_error: policy,
            }
        },
    }
}

/// The name under which the action of the rule at place `index` of the
/// active rule list is registered.
pub open spec fn action_name_text(index: nat) -> Seq<char> {
    "rule_"@ + decimal(index) + "_action"@
}

/// The name under which the action of the rule at place `index` of the
/// active rule list is registered.
pub fn action_name(index: usize) -> (r: String)
    ensures
        r@ == action_name_text(index as nat),
{
    let digits = u64_to_string(index as u64);
    concat3("rule_", digits.as_str(), "_action")
}

/// Whether a rule configuration is loaded: it is enabled and its trigger
/// compiles.
pub open spec fn loadable(rule: RuleConfig) -> bool {
    rule.enabled && trigger_problem(rule) is None
}

/// The rule configurations that are loaded, in order: the active rule
/// list.
pub open spec fn active_configs(config: Config) -> Seq<RuleConfig> {
    config.rules@.filter(|r: RuleConfig| loadable(r))
}

/// The source configurations that are started, in order.
pub open spec fn enabled_sources(config: Config) -> Seq<SourceConfig> {
    config.sources@.filter(|s: SourceConfig| s.enabled)
}

/// Whether `rules` and `actions` are what the active rule list of a
/// configuration turns into: one rule and one action for each entry, in
/// order, the action under the name of the rule's place.
pub open spec fn loaded(
    rules: Seq<Rule>,
    actions: Seq<(String, ActionSpec)>,
    active: Seq<RuleConfig>,
) -> bool {
    &&& rules.len() == active.len()
    &&& actions.len() == active.len()
    &&& forall|k: int|
        0 <= k < active.len() ==> {
            &&& is_rule_for(#[trigger] active[k], rules[k])
            &&& actions[k].0@ == action_name_text(k as nat)
            &&& is_action_for(active[k].action, actions[k].1)
        }
}

/// The rules and actions that a configuration turns into.
pub fn build_rules(config: &Config) -> (r: (Vec<Rule>, Vec<(String, ActionSpec)>))
    ensures
        loaded(r.0@, r.1@, active_configs(*config)),
{
    let ghost pred = |r: RuleConfig| loadable(r);
    let mut rules: Vec<Rule> = Vec::new();
    let mut actions: Vec<(String, ActionSpec)> = Vec::new();
    let mut i: usize = 0;
    proof {
        assert(config.rules@.take(0) =~= Seq::<RuleConfig>::empty());
    }
    while i < config.rules.len()
        invariant
            i <= config.rules@.len(),
            pred == (|r: RuleConfig| loadable(r)),
            loaded(rules@, actions@, config.rules@.take(i as int).filter(pred)),
        decreases config.rules@.len() - i,
    {
        let rule_config = &config.rules[i];
        let ghost before = config.rules@.take(i as int).filter(pred);
        proof {
            assert(config.rules@.take(i + 1) =~= config.rules@.take(i as int).push(*rule_config));
            config.rules@.take(i as int).lemma_filter_push(*rule_config, pred);
        }
        if rule_config.enabled {
            match create_rule(rule_config) {
                Ok(rule) => {
                    let name = action_name(rules.len());
                    let action = create_action(&rule_config.action);
                    rules.push(rule);
                    actions.push((name, action));
                    proof {
                        let after = before.push(*rule_config);
                        assert forall|k: int| 0 <= k < after.len() implies {
                            &&& is_rule_for(#[trigger] after[k], rules@[k])
                            &&& actions@[k].0@ == action_name_text(k as nat)
                            &&& is_action_for(after[k].action, actions@[k].1)
                        } by {
                            if k < before.len() {
                                assert(after[k] == before[k]);
                            }
                        }
                    }
                },
                Err(_) => {},
            }
        }
        i = i + 1;
    }
    assert(config.rules@.take(config.rules@.len() as int) =~= config.rules@);
    (rules, actions)
}

/// The plugins to start for a configuration: one entry for each enabled
/// source, in order; an entry is an error where the source cannot be
/// set up.
pub fn plugin_plan(config: &Config) -> (r: Vec<Result<PluginSpec, EngineError>>)
    ensures
        r@.len() == enabled_sources(*config).len(),
        forall|k: int|
            0 <= k < r@.len() ==> {
                let source = enabled_sources(*config)[k];
                &&& (#[trigger] r@[k]) is Err <==> has_unknown_root(source)
                &&& r@[k] matches Ok(spec) ==> is_plugin_for(source, spec)
            },
{
    let ghost pred = |s: SourceConfig| s.enabled;
    let mut plan: Vec<Result<PluginSpec, EngineError>> = Vec::new();
    let mut i: usize = 0;
    proof {
        assert(config.sources@.take(0) =~= Seq::<SourceConfig>::empty());
    }
    while i < config.sources.len()
        invariant
            i <= config.sources@.len(),
            pred == (|s: SourceConfig| s.enabled),
            plan@.len() == config.sources@.take(i as int).filter(pred).len(),
            forall|k: int|
                0 <= k < plan@.len() ==> {
                    let source = config.sources@.take(i as int).filter(pred)[k];
                    &&& (#[trigger] plan@[k]) is Err <==> has_unknown_root(source)
                    &&& plan@[k] matches Ok(spec) ==> is_plugin_for(source, spec)
                },
        decreases config.sources@.len() - i,
    {
        let source = &config.sources[i];
        proof {
            assert(config.sources@.take(i + 1) =~= config.sources@.take(i as int).push(*source));
            config.sources@.take(i as int).lemma_filter_push(*source, pred);
        }
        if source.enabled {
            plan.push(create_plugin(source));
        }
        i = i + 1;
    }
    assert(config.sources@.take(config.sources@.len() as int) =~= config.sources@);
    plan
}

/// Whether `r` is what an event sets off: one entry for each rule that
/// accepts the event, in the order of the rule list, with the place of the
/// rule and the outcome of running the action registered as
/// `rule_<place>_action`.
pub open spec fn is_dispatch(
    rules: Seq<Rule>,
    executor: &ActionExecutor,
    event: &Event,
    r: Seq<(usize, Outcome)>,
) -> bool {
    let places = matching_indices(rules, event, rules.len() as int);
    &&& r.len() == places.len()
    &&& forall|k: int|
        0 <= k < r.len() ==> {
            &&& (#[trigger] r[k]).0 == places[k]
            &&& executor.spec_execute(action_name_text(places[k] as nat), event, r[k].1)
        }
}

/// Every rule that is enabled and accepts the event triggers its action
/// exactly once, in the order of the rule list: each entry of a dispatch
/// stands for such a rule, the places of the entries ascend strictly, and
/// no such rule is left out.
pub proof fn lemma_dispatch_triggers_each_once(
    rules: Seq<Rule>,
    executor: &ActionExecutor,
    event: &Event,
    r: Seq<(usize, Outcome)>,
)
    requires
        is_dispatch(rules, executor, event, r),
        rules.len() <= usize::MAX,
    ensures
        forall|k: int|
            0 <= k < r.len() ==> (#[trigger] r[k]).0 < rules.len() && rules[r[k].0 as int].spec_matches(
                event,
            ),
        forall|a: int, b: int| 0 <= a < b < r.len() ==> (#[trigger] r[a]).0 < (#[trigger] r[b]).0,
        forall|i: int|
            0 <= i < rules.len() && (#[trigger] rules[i]).spec_matches(event) ==> exists|k: int|
                0 <= k < r.len() && (#[trigger] r[k]).0 == i,
{
    let places = matching_indices(rules, event, rules.len() as int);
    lemma_matching_indices(rules, event, rules.len() as int);
    assert forall|k: int| 0 <= k < r.len() implies (#[trigger] r[k]).0 < rules.len()
        && rules[r[k].0 as int].spec_matches(event) by {
        assert(r[k].0 == places[k]);
    }
    assert forall|a: int, b: int| 0 <= a < b < r.len() implies (#[trigger] r[a]).0 < (
    #[trigger] r[b]).0 by {
        assert(r[a].0 == places[a]);
        assert(r[b].0 == places[b]);
    }
    assert forall|i: int|
        0 <= i < rules.len() && (#[trigger] rules[i]).spec_matches(event) implies exists|k: int|
        0 <= k < r.len() && (#[trigger] r[k]).0 == i by {
        assert(places.contains(i as usize));
        let k = choose|k: int| 0 <= k < places.len() && places[k] == i as usize;
        assert(r[k].0 == i);
    }
}

/// What an event sets off: each rule that accepts the event has its
/// action run once, in the order of the rule list.
pub fn dispatch(rules: &Vec<Rule>, executor: &ActionExecutor, event: &Event) -> (r: Vec<
    (usize, Outcome),
>)
    ensures
        is_dispatch(rules@, executor, event, r@),
{
    let triggered = matching_rules(rules, event);
    let mut outcomes: Vec<(usize, Outcome)> = Vec::new();
    let mut i: usize = 0;
    while i < triggered.len()
        invariant
            i <= triggered@.len(),
            outcomes@.len() == i,
            forall|k: int|
                0 <= k < i ==> {
                    &&& (#[trigger] outcomes@[k]).0 == triggered@[k]
                    &&& executor.spec_execute(
                        action_name_text(triggered@[k] as nat),
                        event,
                        outcomes@[k].1,
                    )
                },
        decreases triggered@.len() - i,
    {
        let index = triggered[i];
        let name = action_name(index);
        let outcome = executor.execute(name.as_str(), event);
        outcomes.push((index, outcome));
        i = i + 1;
    }
    outcomes
}

/// The supervisor's view of the engine: the configuration in force, the
/// rules and actions loaded from it, and the plugins that run.
pub struct Engine {
    pub config: Config,
    pub config_path: Option<String>,
    pub rules: Vec<Rule>,
    pub actions: Vec<(String, ActionSpec)>,
    pub plugins: Vec<String>,
}

/// Whether `after` is what `before` becomes by a reload with `config`
/// that ended with `r`. An invalid configuration changes nothing and is
/// reported; a valid one takes the place of the old one, the rules and
/// actions are those of its active rule list, and no plugin runs until
/// the new ones are started. The plugins to stop are handed out.
pub open spec fn reloaded(
    before: Engine,
    after: Engine,
    config: Config,
    r: Result<Vec<String>, EngineError>,
) -> bool {
    match problem_of(config) {
        Some(problem) => {
            &&& r matches Err(EngineError::Config(m))
            &&& m@ == "Config validation error: "@ + problem
            &&& after == before
        },
        None => {
            &&& r matches Ok(stopped)
            &&& stopped == before.plugins
            &&& after.config == config
            &&& after.config_path == before.config_path
            &&& after.plugins@.len() == 0
            &&& loaded(after.rules@, after.actions@, active_configs(config))
        },
    }
}

impl Engine {
    /// An engine for a configuration, with nothing loaded or running yet.
    pub fn new(config: Config, config_path: Option<String>) -> (r: Self)
        ensures
            r.config == config,
            r.config_path == config_path,
            r.rules@.len() == 0,
            r.actions@.len() == 0,
            r.plugins@.len() == 0,
    {
        Engine {
            config,
            config_path,
            rules: Vec::new(),
            actions: Vec::new(),
            plugins: Vec::new(),
        }
    }

    /// Loads the rules and actions of the configuration in force, in
    /// place of those loaded before.
    pub fn initialize_rules(&mut self)
        ensures
            final(self).config == old(self).config,
            final(self).config_path == old(self).config_path,
            final(self).plugins == old(self).plugins,
            loaded(final(self).rules@, final(self).actions@, active_configs(old(self).config)),
    {
        let (rules, actions) = build_rules(&self.config);
        self.rules = rules;
        self.actions = actions;
    }

    /// Takes note that the plugin of this name runs.
    pub fn plugin_started(&mut self, name: &str)
        ensures
            final(self).config == old(self).config,
            final(self).config_path == old(self).config_path,
            final(self).rules == old(self).rules,
            final(self).actions == old(self).actions,
            final(self).plugins@.len() == old(self).plugins@.len() + 1,
            final(self).plugins@.last()@ == name@,
            final(self).plugins@.drop_last() == old(self).plugins@,
    {
        self.plugins.push(String::from_str(name));
        assert(self.plugins@.drop_last() =~= old(self).plugins@);
    }

    /// Whether the engine and the metrics are what they become when the
    /// start of a plugin came to `result`. A plugin that started runs from
    /// now on and no counter changes. One that failed is skipped: it does
    /// not count as running, one initialization error is counted for it,
    /// and `r` holds the error to report.
    pub open spec fn spec_plugin_start(
        before: Engine,
        after: Engine,
        name: Seq<char>,
        result: Result<(), PluginError>,
        counters_before: &MetricsCollector,
        counters_after: &MetricsCollector,
        r: Option<EngineError>,
    ) -> bool {
        &&& after.config == before.config
        &&& after.config_path == before.config_path
        &&& after.rules == before.rules
        &&& after.actions == before.actions
        &&& match result {
            Ok(()) => {
                &&& r is None
                &&& after.plugins@.len() == before.plugins@.len() + 1
                &&& after.plugins@.last()@ == name
                &&& after.plugins@.drop_last() == before.plugins@
                &&& counters_after.spec_counters() == counters_before.spec_counters()
            },
            Err(e) => {
                &&& r matches Some(EngineError::PluginInit(plugin, why)) && plugin@ == name && why@
                    == e.spec_to_string()
                &&& after.plugins == before.plugins
                &&& counted(
                    counters_before,
                    counters_after,
                    "plugins_errors_total"@,
                    two_labels("plugin"@, name, "error_type"@, "initialization"@),
                    1,
                )
            },
        }
    }

    /// Takes note of what the start of the plugin of this name came to.
    /// The engine goes on with the other plugins either way.
    pub fn note_plugin_start(
        &mut self,
        name: &str,
        result: &Result<(), PluginError>,
        metrics: &mut MetricsCollector,
    ) -> (r: Option<EngineError>)
        ensures
            Self::spec_plugin_start(
                *old(self),
                *final(self),
                name@,
                *result,
                old(metrics),
                final(metrics),
                r,
            ),
            never_decrease(old(metrics).spec_counters(), final(metrics).spec_counters()),
    {
        match result {
            Ok(()) => {
                proof {
                    lemma_never_decrease_same(metrics.spec_counters());
                }
                self.plugin_started(name);
                None
            },
            Err(e) => {
                record_plugin_error(metrics, name, "initialization");
                Some(EngineError::PluginInit(String::from_str(name), e.to_string()))
            },
        }
    }

    /// How many plugins run and how many rules are loaded.
    pub open spec fn spec_status(&self) -> EngineStatus {
        EngineStatus {
            active_plugins: self.plugins@.len() as usize,
            active_rules: self.rules@.len() as usize,
        }
    }

    /// How many plugins run and how many rules are loaded.
    pub fn get_status(&self) -> (r: EngineStatus)
        ensures
            r == self.spec_status(),
    {
        EngineStatus { active_plugins: self.plugins.len(), active_rules: self.rules.len() }
    }

    /// Replaces the configuration. An invalid configuration is refused
    /// and the engine stays as it is. For a valid one the result names
    /// the plugins to stop; the engine then holds the new configuration
    /// with its rules and actions, and no running plugin.
    pub fn reload(&mut self, new_config: Config) -> (r: Result<Vec<String>, EngineError>)
        ensures
            reloaded(*old(self), *final(self), new_config, r),
    {
        match new_config.validate() {
            Err(e) => {
                let text = e.to_string();
                Err(EngineError::Config(text))
            },
            Ok(()) => {
                let (rules, actions) = build_rules(&new_config);
                let mut stopped: Vec<String> = Vec::new();
                std::mem::swap(&mut self.plugins, &mut stopped);
                self.rules = rules;
                self.actions = actions;
                self.config = new_config;
                Ok(stopped)
            },
        }
    }

    /// Stops the engine: the result names the plugins to stop, and none
    /// runs afterwards.
    pub fn shutdown(&mut self) -> (r: Vec<String>)
        ensures
            r == old(self).plugins,
            final(self).plugins@.len() == 0,
            final(self).config == old(self).config,
            final(self).config_path == old(self).config_path,
            final(self).rules == old(self).rules,
            final(self).actions == old(self).actions,
    {
        let mut stopped: Vec<String> = Vec::new();
        std::mem::swap(&mut self.plugins, &mut stopped);
        stopped
    }

    /// What an event sets off under the rules loaded: see `dispatch`.
    pub fn dispatch(&self, executor: &ActionExecutor, event: &Event) -> (r: Vec<(usize, Outcome)>)
        ensures
            is_dispatch(self.rules@, executor, event, r@),
    {
        dispatch(&self.rules, executor, event)
    }
}

/// After a reload with a valid configuration the status shows the new
/// counts: as many rules as the active rule list of the new configuration
/// has, and no running plugin yet. After a reload with an invalid
/// configuration the counts are what they were.
pub proof fn lemma_reload_status(
    before: Engine,
    after: Engine,
    config: Config,
    r: Result<Vec<String>, EngineError>,
)
    requires
        reloaded(before, after, config, r),
    ensures
        config.spec_valid() ==> r is Ok && after.spec_status() == (EngineStatus {
            active_plugins: 0,
            active_rules: active_configs(config).len() as usize,
        }),
        !config.spec_valid() ==> r is Err && after.spec_status() == before.spec_status(),
{
}

/// The time between reloads within which changes are ignored, in
/// milliseconds.
pub const RELOAD_DEBOUNCE_MS: u64 = 500;

/// Holds back reloads that follow each other too closely.
#[derive(Debug, Clone, Copy)]
pub struct ReloadDebounce {
    /// When the last reload was signalled, or the watch began, on a clock
    /// of milliseconds that never runs backwards.
    pub last_reload_ms: u64,
}

/// Whether one of the paths is a configuration file: its extension is
/// `toml`.
pub open spec fn names_config_file(paths: Seq<String>) -> bool {
    exists|i: int| 0 <= i < paths.len() && path_extension((#[trigger] paths[i])@) == Some("toml"@)
}

fn any_config_file(paths: &Vec<String>) -> (r: bool)
    ensures
        r == names_config_file(paths@),
{
    let mut i: usize = 0;
    while i < paths.len()
        invariant
            i <= paths@.len(),
            forall|k: int| 0 <= k < i ==> path_extension((#[trigger] paths@[k])@) != Some("toml"@),
        decreases paths@.len() - i,
    {
        match extension_of(paths[i].as_str()) {
            Some(ext) => {
                if crate::text::str_eq(ext.as_str(), "toml") {
                    return true;
                }
            },
            None => {},
        }
        i = i + 1;
    }
    false
}

impl ReloadDebounce {
    /// A debounce that starts now.
    pub fn new(now_ms: u64) -> (r: Self)
        ensures
            r.last_reload_ms == now_ms,
    {
        ReloadDebounce { last_reload_ms: now_ms }
    }

    /// Whether a change notice signals a reload: it tells of a file that
    /// was modified or created, the last signal is at least the debounce
    /// time ago, and one of its paths is a configuration file.
    pub open spec fn spec_signals(&self, kind: ChangeKind, paths: Seq<String>, now_ms: u64) -> bool {
        &&& kind == ChangeKind::Modify || kind == ChangeKind::Create
        &&& now_ms - self.last_reload_ms >= RELOAD_DEBOUNCE_MS
        &&& names_config_file(paths)
    }

    /// Decides whether a change notice signals a reload, and remembers
    /// the time of a signal.
    pub fn on_change(&mut self, kind: ChangeKind, paths: &Vec<String>, now_ms: u64) -> (r: bool)
        ensures
            r == old(self).spec_signals(kind, paths@, now_ms),
            final(self).last_reload_ms == (if r {
                now_ms
            } else {
                old(self).last_reload_ms
            }),
    {
        if kind != ChangeKind::Modify && kind != ChangeKind::Create {
            return false;
        }
        if now_ms < self.last_reload_ms || now_ms - self.last_reload_ms < RELOAD_DEBOUNCE_MS {
            return false;
        }
        if !any_config_file(paths) {
            return false;
        }
        self.last_reload_ms = now_ms;
        true
    }
}

/// What a round of draining the bus came to.
#[derive(Debug, Clone, Copy, PartialEq, Eq, Structural)]
pub struct PumpReport {
    /// How many events were taken from the bus.
    pub processed: usize,
    /// How many actions were set off.
    pub triggered: usize,
    /// Whether the bus was found closed and empty: the loop is over.
    pub disconnected: bool,
}

/// The number of actions that the first `n` of the events set off under
/// the rules.
pub open spec fn set_off_by(rules: Seq<Rule>, events: Seq<Event>, n: int) -> nat
    decreases n,
{
    if n <= 0 || n > events.len() {
        0
    } else {
        set_off_by(rules, events, n - 1) + matching_indices(
            rules,
            &events[n - 1],
            rules.len() as int,
        ).len()
    }
}

/// Whether the report is that of a round in which these events were
/// taken from the bus: it counts them and the actions they set off, the
/// latter up to the largest count.
pub open spec fn is_report_of(rules: Seq<Rule>, events: Seq<Event>, r: PumpReport) -> bool {
    let total = set_off_by(rules, events, events.len() as int);
    &&& r.processed == events.len()
    &&& r.triggered == (if total > usize::MAX {
        usize::MAX as nat
    } else {
        total
    })
}

/// The counters after the first `n` of the events were dispatched one
/// after the other, the event at place `k` setting off `outcomes[k]`.
pub open spec fn pumped(
    counters: Map<Seq<char>, u64>,
    rules: Seq<Rule>,
    events: Seq<Event>,
    outcomes: Seq<Seq<Triggered>>,
    n: int,
) -> Map<Seq<char>, u64>
    decreases n,
{
    if n <= 0 || n > events.len() || n > outcomes.len() {
        counters
    } else {
        counters_after(
            pumped(counters, rules, events, outcomes, n - 1),
            rules,
            &events[n - 1],
            outcomes[n - 1],
        )
    }
}

/// Whether a round of the pump took these events from the bus: each was
/// dispatched and set off what `outcomes` holds for it, the report counts
/// the events and the actions, and the counters are what dispatching the
/// events one after the other makes of them.
pub open spec fn is_pump_of(
    rules: Seq<Rule>,
    executor: &ActionExecutor,
    events: Seq<Event>,
    outcomes: Seq<Seq<Triggered>>,
    r: PumpReport,
    before: Map<Seq<char>, u64>,
    after: Map<Seq<char>, u64>,
) -> bool {
    &&& outcomes.len() == events.len()
    &&& is_report_of(rules, events, r)
    &&& forall|k: int|
        0 <= k < events.len() ==> is_timed_dispatch(
            rules,
            executor,
            &events[k],
            #[trigger] outcomes[k],
            rules.len() as int,
        )
    &&& after == pumped(before, rules, events, outcomes, events.len() as int)
}

/// Takes up to `limit` waiting events from the bus, one after the other,
/// and dispatches each, with bookkeeping, before the next is taken. It
/// stops early where the bus is empty or closed. Whatever events the bus
/// hands out, each of them is dispatched, the report counts them and the
/// actions they set off, the counters are those after their dispatch, and
/// no counter of the metrics decreases.
pub fn pump(
    rules: &Vec<Rule>,
    executor: &ActionExecutor,
    receiver: &mut EventReceiver,
    metrics: &mut MetricsCollector,
    limit: usize,
) -> (r: PumpReport)
    ensures
        r.processed <= limit,
        r.disconnected ==> r.processed < limit,
        exists|events: Seq<Event>, outcomes: Seq<Seq<Triggered>>| #[trigger]
            is_pump_of(
                rules@,
                executor,
                events,
                outcomes,
                r,
                old(metrics).spec_counters(),
                final(metrics).spec_counters(),
            ),
        never_decrease(old(metrics).spec_counters(), final(metrics).spec_counters()),
        final(metrics).spec_gauges() == old(metrics).spec_gauges(),
        final(metrics).spec_metadata() == old(metrics).spec_metadata(),
{
    let ghost mut taken: Seq<Event> = Seq::empty();
    let ghost mut done: Seq<Seq<Triggered>> = Seq::empty();
    let ghost first = metrics.spec_counters();
    let mut processed: usize = 0;
    let mut triggered: usize = 0;
    proof {
        lemma_never_decrease_same(metrics.spec_counters());
    }
    while processed < limit
        invariant
            processed <= limit,
            first == old(metrics).spec_counters(),
            is_pump_of(
                rules@,
                executor,
                taken,
                done,
                PumpReport { processed, triggered, disconnected: false },
                first,
                metrics.spec_counters(),
            ),
            never_decrease(first, metrics.spec_counters()),
            metrics.spec_gauges() == old(metrics).spec_gauges(),
            metrics.spec_metadata() == old(metrics).spec_metadata(),
        decreases limit - processed,
    {
        match try_receive(receiver) {
            TryReceive::Event(event) => {
                let ghost before = *metrics;
                let outcomes = dispatch_recorded(rules, executor, &event, metrics);
                proof {
                    let nanos = choose|nanos: u64| #[trigger]
                        dispatch_recorded_in(&before, &*metrics, rules@, &event, outcomes@, nanos);
                    lemma_never_decrease_chain(
                        first,
                        before.spec_counters(),
                        metrics.spec_counters(),
                    );
                    let longer = taken.push(event);
                    let more = done.push(outcomes@);
                    lemma_set_off_prefix(rules@, taken, longer, taken.len() as int);
                    lemma_pumped_prefix(first, rules@, taken, done, longer, more, taken.len() as int);
                    assert forall|k: int| 0 <= k < longer.len() implies is_timed_dispatch(
                        rules@,
                        executor,
                        &longer[k],
                        #[trigger] more[k],
                        rules@.len() as int,
                    ) by {
                        if k < taken.len() {
                            assert(longer[k] == taken[k]);
                            assert(more[k] == done[k]);
                        }
                    }
                    taken = longer;
                    done = more;
                }
                triggered = triggered.saturating_add(outcomes.len());
                processed = processed + 1;
            },
            TryReceive::Empty => {
                return PumpReport { processed, triggered, disconnected: false };
            },
            TryReceive::Disconnected => {
                let r = PumpReport { processed, triggered, disconnected: true };
                assert(is_report_of(rules@, taken, r));
                assert(is_pump_of(rules@, executor, taken, done, r, first, metrics.spec_counters()));
                return r;
            },
        }
    }
    PumpReport { processed, triggered, disconnected: false }
}

/// Events and outcomes beyond the first `n` do not count for the first
/// `n`.
proof fn lemma_pumped_prefix(
    counters: Map<Seq<char>, u64>,
    rules: Seq<Rule>,
    events: Seq<Event>,
    outcomes: Seq<Seq<Triggered>>,
    more_events: Seq<Event>,
    more_outcomes: Seq<Seq<Triggered>>,
    n: int,
)
    requires
        0 <= n <= events.len() <= more_events.len(),
        outcomes.len() == events.len(),
        more_outcomes.len() == more_events.len(),
        forall|k: int| 0 <= k < events.len() ==> events[k] == more_events[k],
        forall|k: int| 0 <= k < events.len() ==> outcomes[k] == more_outcomes[k],
    ensures
        pumped(counters, rules, events, outcomes, n) == pumped(
            counters,
            rules,
            more_events,
            more_outcomes,
            n,
        ),
    decreases n,
{
    if n > 0 {
        lemma_pumped_prefix(counters, rules, events, outcomes, more_events, more_outcomes, n - 1);
    }
}

/// Events beyond the first `n` do not count for the first `n`.
proof fn lemma_set_off_prefix(rules: Seq<Rule>, events: Seq<Event>, more: Seq<Event>, n: int)
    requires
        0 <= n <= events.len() <= more.len(),
        forall|k: int| 0 <= k < events.len() ==> events[k] == more[k],
    ensures
        set_off_by(rules, events, n) == set_off_by(rules, more, n),
    decreases n,
{
    if n > 0 {
        lemma_set_off_prefix(rules, events, more, n - 1);
    }
}

/// The interval of a rule that is enabled and set off by a timer.
pub open spec fn timer_interval_of(rule: RuleConfig) -> Option<u64> {
    match rule.trigger {
        TriggerConfig::Timer { interval_seconds } => if rule.enabled {
            Some(interval_seconds)
        } else {
            None
        },
        _ => None,
    }
}

/// The intervals at which timers have to tick for the first `n` rules:
/// the interval of each enabled timer rule, each interval once, in the
/// order in which the intervals come first.
pub open spec fn timer_intervals_of(rules: Seq<RuleConfig>, n: int) -> Seq<u64>
    decreases n,
{
    if n <= 0 || n > rules.len() {
        Seq::empty()
    } else {
        let before = timer_intervals_of(rules, n - 1);
        match timer_interval_of(rules[n - 1]) {
            Some(seconds) => if before.contains(seconds) {
                before
            } else {
                before.push(seconds)
            },
            None => before,
        }
    }
}

fn holds_interval(list: &Vec<u64>, seconds: u64) -> (r: bool)
    ensures
        r == list@.contains(seconds),
{
    let mut i: usize = 0;
    while i < list.len()
        invariant
            i <= list@.len(),
            forall|k: int| 0 <= k < i ==> list@[k] != seconds,
        decreases list@.len() - i,
    {
        if list[i] == seconds {
            return true;
        }
        i = i + 1;
    }
    false
}

/// The intervals at which timers have to tick for a configuration.
pub fn timer_intervals(config: &Config) -> (r: Vec<u64>)
    ensures
        r@ == timer_intervals_of(config.rules@, config.rules@.len() as int),
{
    let mut out: Vec<u64> = Vec::new();
    let mut i: usize = 0;
    while i < config.rules.len()
        invariant
            i <= config.rules@.len(),
            out@ == timer_intervals_of(config.rules@, i as int),
        decreases config.rules@.len() - i,
    {
        let rule = &config.rules[i];
        if rule.enabled {
            if let TriggerConfig::Timer { interval_seconds } = &rule.trigger {
                let known = holds_interval(&out, *interval_seconds);
                if !known {
                    out.push(*interval_seconds);
                }
            }
        }
        i = i + 1;
    }
    out
}

} // verus!
