//! The declarative configuration: the engine's settings, the sources to
//! start and the rules to load, and what makes a configuration valid.

use crate::pattern::{glob_compiles, is_valid_glob, is_valid_regex, regex_compiles};
use crate::plugins::registry_monitor::RegistryRoot;
use crate::text::{concat2, opt_text};
use vstd::prelude::*;
use vstd::string::*;

verus! {

/// The whole configuration.
#[derive(Debug, Clone)]
pub struct Config {
    pub engine: EngineConfig,
    pub sources: Vec<SourceConfig>,
    pub rules: Vec<RuleConfig>,
}

/// The engine's own settings.
#[derive(Debug, Clone)]
pub struct EngineConfig {
    pub event_buffer_size: usize,
    pub log_level: String,
}

/// The capacity of the event bus where none is configured.
pub fn default_event_buffer_size() -> (r: usize)
    ensures
        r == 1000,
{
    1000
}

/// The value of a switch that is on unless configured otherwise.
pub fn default_true() -> (r: bool)
    ensures
        r,
{
    true
}

/// The interval of a timer where none is configured, in seconds.
pub fn default_timer_interval() -> (r: u64)
    ensures
        r == 60,
{
    60
}

/// The level of a log action where none is configured.
pub fn default_log_level() -> (r: String)
    ensures
        r@ == "info"@,
{
    String::from_str("info")
}

/// The method of an HTTP request where none is configured.
pub fn default_http_method() -> (r: String)
    ensures
        r@ == "POST"@,
{
    String::from_str("POST")
}

impl Default for EngineConfig {
    fn default() -> (r: Self)
        ensures
            r.event_buffer_size == 1000,
            r.log_level@ == "info"@,
    {
        EngineConfig { event_buffer_size: default_event_buffer_size(), log_level: String::from_str("info") }
    }
}

impl Default for Config {
    fn default() -> (r: Self)
        ensures
            r.engine.event_buffer_size == 1000,
            r.engine.log_level@ == "info"@,
            r.sources@.len() == 0,
            r.rules@.len() == 0,
    {
        Config { engine: EngineConfig::default(), sources: Vec::new(), rules: Vec::new() }
    }
}

/// A source of events to start.
#[derive(Debug, Clone)]
pub struct SourceConfig {
    pub name: String,
    pub source_type: SourceType,
    pub enabled: bool,
}

/// The kind of a source and its settings.
#[derive(Debug, Clone)]
pub enum SourceType {
    FileWatcher { paths: Vec<String>, pattern: Option<String>, recursive: bool },
    WindowWatcher { title_pattern: Option<String>, process_pattern: Option<String> },
    ProcessMonitor {
        process_name: Option<String>,
        monitor_threads: bool,
        monitor_files: bool,
        monitor_network: bool,
    },
    RegistryMonitor { root: String, key: String, recursive: bool },
}

/// A rule to load.
#[derive(Debug, Clone)]
pub struct RuleConfig {
    pub name: String,
    pub description: Option<String>,
    pub trigger: TriggerConfig,
    pub action: ActionConfig,
    pub enabled: bool,
}

/// What sets a rule off.
#[derive(Debug, Clone)]
pub enum TriggerConfig {
    FileCreated { pattern: Option<String> },
    FileModified { pattern: Option<String> },
    FileDeleted { pattern: Option<String> },
    WindowFocused { title_contains: Option<String>, process_name: Option<String> },
    WindowUnfocused { title_contains: Option<String>, process_name: Option<String> },
    WindowCreated,
    ProcessStarted { process_name: Option<String> },
    ProcessStopped { process_name: Option<String> },
    RegistryChanged { value_name: Option<String> },
    Timer { interval_seconds: u64 },
}

/// What a rule does.
#[derive(Debug, Clone)]
pub enum ActionConfig {
    Execute { command: String, args: Vec<String>, working_dir: Option<String> },
    PowerShell { script: String, working_dir: Option<String> },
    Log { message: String, level: String },
    Notify { title: String, message: String },
    HttpRequest {
        url: String,
        method: String,
        headers: Vec<(String, String)>,
        body: Option<String>,
    },
    Media { command: String },
    Script {
        script_path: String,
        function_name: String,
        timeout_ms: Option<u64>,
        on_error: String,
    },
}

/// Why a configuration could not be used.
#[derive(Debug, Clone)]
pub enum ConfigError {
    /// The file at the path could not be read; the second text says why.
    FileRead(String, String),
    /// The file is no configuration; the text says why.
    Parse(String),
    /// The configuration breaks a rule of validity; the text says which.
    Validation(String),
}

impl ConfigError {
    /// The message as it is shown to the operator.
    pub open spec fn spec_to_string(&self) -> Seq<char> {
        match self {
            ConfigError::FileRead(path, msg) => "Failed to read config file \""@ + path@ + "\": "@
                + msg@,
            ConfigError::Parse(msg) => "Failed to parse config: "@ + msg@,
            ConfigError::Validation(msg) => "Config validation error: "@ + msg@,
        }
    }

    /// The message as it is shown to the operator.
    pub fn to_string(&self) -> (r: String)
        ensures
            r@ == self.spec_to_string(),
    {
        match self {
            ConfigError::FileRead(path, msg) => {
                let mut out = crate::text::concat3(
                    "Failed to read config file \"",
                    path.as_str(),
                    "\": ",
                );
                out.append(msg.as_str());
                out
            },
            ConfigError::Parse(msg) => concat2("Failed to parse config: ", msg.as_str()),
            ConfigError::Validation(msg) => concat2("Config validation error: ", msg.as_str()),
        }
    }
}

/// What is wrong with a glob that is set: nothing where it compiles.
pub open spec fn glob_problem(pattern: Option<String>) -> Option<Seq<char>> {
    match pattern {
        Some(p) => if glob_compiles(p@) {
            None
        } else {
            Some("Invalid glob pattern: "@ + p@)
        },
        None => None,
    }
}

/// What is wrong with a regular expression that is set: nothing where it
/// compiles.
pub open spec fn regex_problem(pattern: Option<String>) -> Option<Seq<char>> {
    match pattern {
        Some(p) => if regex_compiles(p@) {
            None
        } else {
            Some("Invalid regex pattern: "@ + p@)
        },
        None => None,
    }
}

/// The first of two problems.
pub open spec fn or_else(first: Option<Seq<char>>, second: Option<Seq<char>>) -> Option<Seq<char>> {
    match first {
        Some(p) => Some(p),
        None => second,
    }
}

/// What is wrong with the settings of a source: a glob or a regular
/// expression that does not compile, or a registry root that is none of
/// `HKLM`, `HKCU`, `HKU` and `HKCC`.
pub open spec fn source_problem(source: SourceConfig) -> Option<Seq<char>> {
    match source.source_type {
        SourceType::FileWatcher { pattern, .. } => glob_problem(pattern),
        SourceType::WindowWatcher { title_pattern, process_pattern } => or_else(
            regex_problem(title_pattern),
            regex_problem(process_pattern),
        ),
        SourceType::ProcessMonitor { .. } => None,
        SourceType::RegistryMonitor { root, .. } => if RegistryRoot::spec_parse(root@) is Some {
            None
        } else {
            Some("Invalid registry root: "@ + root@)
        },
    }
}

/// What is wrong with the trigger of a rule: a glob that does not
/// compile.
pub open spec fn trigger_problem(rule: RuleConfig) -> Option<Seq<char>> {
    match rule.trigger {
        TriggerConfig::FileCreated { pattern } => glob_problem(pattern),
        TriggerConfig::FileModified { pattern } => glob_problem(pattern),
        TriggerConfig::FileDeleted { pattern } => glob_problem(pattern),
        _ => None,
    }
}

/// What is wrong with the name of a rule: it is empty.
pub open spec fn name_problem(rule: RuleConfig) -> Option<Seq<char>> {
    if rule.name@.len() == 0 {
        Some("Rule must have a name"@)
    } else {
        None
    }
}

/// Whether the source at place `j` has the name of a source before it.
pub open spec fn repeats_name(sources: Seq<SourceConfig>, j: int) -> bool {
    exists|i: int| 0 <= i < j && (#[trigger] sources[i]).name@ == sources[j].name@
}

/// What is wrong with the name of the source at place `j`: a source
/// before it has the same.
pub open spec fn duplicate_problem(sources: Seq<SourceConfig>, j: int) -> Option<Seq<char>> {
    if repeats_name(sources, j) {
        Some("Duplicate source name: "@ + sources[j].name@)
    } else {
        None
    }
}

/// The first problem among the first `n` checks.
pub open spec fn first_problem(checks: Seq<Option<Seq<char>>>, n: int) -> Option<Seq<char>>
    decreases n,
{
    if n <= 0 || n > checks.len() {
        None
    } else {
        or_else(first_problem(checks, n - 1), checks[n - 1])
    }
}

/// The checks on a configuration, in the order in which they are made:
/// the names of the rules, the names of the sources, the settings of the
/// sources, the triggers of the rules.
pub open spec fn checks_of(config: Config) -> Seq<Option<Seq<char>>> {
    config.rules@.map_values(|r: RuleConfig| name_problem(r)) + Seq::new(
        config.sources@.len(),
        |j: int| duplicate_problem(config.sources@, j),
    ) + config.sources@.map_values(|s: SourceConfig| source_problem(s)) + config.rules@.map_values(
        |r: RuleConfig| trigger_problem(r),
    )
}

/// What is wrong with a configuration: the first problem that the checks
/// find, nothing where it is valid.
pub open spec fn problem_of(config: Config) -> Option<Seq<char>> {
    first_problem(checks_of(config), checks_of(config).len() as int)
}

/// No problem among the first `n` checks means that each of them passed.
pub proof fn lemma_no_problem(checks: Seq<Option<Seq<char>>>, n: int)
    requires
        0 <= n <= checks.len(),
    ensures
        first_problem(checks, n) is None <==> (forall|i: int| 0 <= i < n ==> checks[i] is None),
    decreases n,
{
    if n > 0 {
        lemma_no_problem(checks, n - 1);
    }
}

/// The first problem of a list of checks whose first `n` pass is found
/// among the rest.
pub proof fn lemma_first_problem_at(checks: Seq<Option<Seq<char>>>, at: int, n: int)
    requires
        0 <= at < n <= checks.len(),
        forall|i: int| 0 <= i < at ==> checks[i] is None,
        checks[at] is Some,
    ensures
        first_problem(checks, n) == checks[at],
    decreases n,
{
    lemma_no_problem(checks, at);
    if n > at + 1 {
        lemma_first_problem_at(checks, at, n - 1);
    }
}

fn check_glob(pattern: &Option<String>) -> (r: Option<String>)
    ensures
        opt_text(r) == glob_problem(*pattern),
{
    match pattern {
        Some(p) => if is_valid_glob(p.as_str()) {
            None
        } else {
            Some(concat2("Invalid glob pattern: ", p.as_str()))
        },
        None => None,
    }
}

fn check_regex(pattern: &Option<String>) -> (r: Option<String>)
    ensures
        opt_text(r) == regex_problem(*pattern),
{
    match pattern {
        Some(p) => if is_valid_regex(p.as_str()) {
            None
        } else {
            Some(concat2("Invalid regex pattern: ", p.as_str()))
        },
        None => None,
    }
}

fn check_source(source: &SourceConfig) -> (r: Option<String>)
    ensures
        opt_text(r) == source_problem(*source),
{
    match &source.source_type {
        SourceType::FileWatcher { pattern, .. } => check_glob(pattern),
        SourceType::WindowWatcher { title_pattern, process_pattern } => {
            match check_regex(title_pattern) {
                Some(p) => Some(p),
                None => check_regex(process_pattern),
            }
        },
        SourceType::ProcessMonitor { .. } => None,
        SourceType::RegistryMonitor { root, .. } => {
            if RegistryRoot::parse(root.as_str()).is_some() {
                None
            } else {
                Some(concat2("Invalid registry root: ", root.as_str()))
            }
        },
    }
}

fn check_trigger(rule: &RuleConfig) -> (r: Option<String>)
    ensures
        opt_text(r) == trigger_problem(*rule),
{
    match &rule.trigger {
        TriggerConfig::FileCreated { pattern } => check_glob(pattern),
        TriggerConfig::FileModified { pattern } => check_glob(pattern),
        TriggerConfig::FileDeleted { pattern } => check_glob(pattern),
        _ => None,
    }
}

fn check_duplicate(sources: &Vec<SourceConfig>, j: usize) -> (r: Option<String>)
    requires
        j < sources@.len(),
    ensures
        opt_text(r) == duplicate_problem(sources@, j as int),
{
    let mut i: usize = 0;
    while i < j
        invariant
            i <= j,
            j < sources@.len(),
            forall|k: int| 0 <= k < i ==> (#[trigger] sources@[k]).name@ != sources@[j as int].name@,
        decreases j - i,
    {
        if sources[i].name == sources[j].name {
            return Some(concat2("Duplicate source name: ", sources[j].name.as_str()));
        }
        i = i + 1;
    }
    None
}

impl Config {
    /// Whether the configuration is valid: every rule has a name, no two
    /// sources have the same name, every glob and regular expression
    /// compiles and every registry root is known.
    pub open spec fn spec_valid(&self) -> bool {
        problem_of(*self) is None
    }

    /// Whether `r` is the verdict on the configuration: `Ok` exactly where
    /// it is valid, else the validation error that tells of the first
    /// problem.
    pub open spec fn spec_validate(&self, r: Result<(), ConfigError>) -> bool {
        &&& r is Ok <==> self.spec_valid()
        &&& r matches Err(e) ==> e matches ConfigError::Validation(m) && Some(m@) == problem_of(
            *self,
        )
    }

    /// Checks the configuration. It fails exactly where the configuration
    /// is not valid, with the first problem found.
    pub fn validate(&self) -> (r: Result<(), ConfigError>)
        ensures
            self.spec_validate(r),
    {
        let ghost checks = checks_of(*self);
        let rules: usize = self.rules.len();
        let sources: usize = self.sources.len();
        let mut i: usize = 0;
        while i < rules
            invariant
                i <= rules,
                rules == self.rules@.len(),
                sources == self.sources@.len(),
                checks == checks_of(*self),
                forall|k: int| 0 <= k < i ==> checks[k] is None,
            decreases rules - i,
        {
            assert(checks[i as int] == name_problem(self.rules@[i as int]));
            if self.rules[i].name.as_str().unicode_len() == 0 {
                proof {
                    lemma_first_problem_at(checks, i as int, checks.len() as int);
                }
                return Err(ConfigError::Validation(String::from_str("Rule must have a name")));
            }
            i = i + 1;
        }
        let mut j: usize = 0;
        while j < sources
            invariant
                j <= sources,
                rules == self.rules@.len(),
                sources == self.sources@.len(),
                checks == checks_of(*self),
                forall|k: int| 0 <= k < rules + j ==> checks[k] is None,
            decreases sources - j,
        {
            assert(checks[rules + j] == duplicate_problem(self.sources@, j as int));
            match check_duplicate(&self.sources, j) {
                Some(problem) => {
                    proof {
                        lemma_first_problem_at(checks, rules + j, checks.len() as int);
                    }
                    return Err(ConfigError::Validation(problem));
                },
                None => {},
            }
            j = j + 1;
        }
        let mut s: usize = 0;
        while s < sources
            invariant
                s <= sources,
                rules == self.rules@.len(),
                sources == self.sources@.len(),
                checks == checks_of(*self),
                forall|k: int| 0 <= k < rules + sources + s ==> checks[k] is None,
            decreases sources - s,
        {
            assert(checks[rules + sources + s] == source_problem(self.sources@[s as int]));
            match check_source(&self.sources[s]) {
                Some(problem) => {
                    proof {
                        lemma_first_problem_at(checks, rules + sources + s, checks.len() as int);
                    }
                    return Err(ConfigError::Validation(problem));
                },
                None => {},
            }
            s = s + 1;
        }
        let mut t: usize = 0;
        while t < rules
            invariant
                t <= rules,
                rules == self.rules@.len(),
                sources == self.sources@.len(),
                checks == checks_of(*self),
                forall|k: int| 0 <= k < rules + sources + sources + t ==> checks[k] is None,
            decreases rules - t,
        {
            assert(checks[rules + sources + sources + t] == trigger_problem(self.rules@[t as int]));
            match check_trigger(&self.rules[t]) {
                Some(problem) => {
                    proof {
                        lemma_first_problem_at(
                            checks,
                            rules + sources + sources + t,
                            checks.len() as int,
                        );
                    }
                    return Err(ConfigError::Validation(problem));
                },
                None => {},
            }
            t = t + 1;
        }
        proof {
            lemma_no_problem(checks, checks.len() as int);
        }
        Ok(())
    }

    /// The configuration with the sources and rules of another added
    /// behind its own, as a directory of configuration files is read.
    pub fn merge(&mut self, other: Config)
        ensures
            final(self).engine == old(self).engine,
            final(self).sources@ == old(self).sources@ + other.sources@,
            final(self).rules@ == old(self).rules@ + other.rules@,
    {
        let mut other = other;
        self.sources.append(&mut other.sources);
        self.rules.append(&mut other.rules);
    }
}

/// Validation is idempotent: a configuration that passed a first check
/// passes every further one. More generally two checks of one
/// configuration agree: both pass, or both fail with the same message.
pub proof fn lemma_validation_is_idempotent(
    config: Config,
    first: Result<(), ConfigError>,
    second: Result<(), ConfigError>,
)
    requires
        config.spec_validate(first),
        config.spec_validate(second),
    ensures
        first is Ok ==> second is Ok,
        first is Ok <==> second is Ok,
        first matches Err(a) ==> second matches Err(b) && a.spec_to_string() == b.spec_to_string(),
{
}

/// The configuration that is used where none is found: it watches the
/// current directory for text files and logs the creation of one.
pub fn create_demo_config() -> (r: Config)
    ensures
        r.engine.event_buffer_size == 100,
        r.engine.log_level@ == "info"@,
        r.sources@.len() == 1,
        r.sources@[0].name@ == "test_file_watcher"@,
        r.sources@[0].enabled,
        r.sources@[0].source_type matches SourceType::FileWatcher { paths, pattern, recursive }
            && paths@.len() == 1 && paths@[0]@ == "."@ && opt_text(pattern) == Some("*.txt"@)
            && !recursive,
        r.rules@.len() == 1,
        r.rules@[0].name@ == "text_file_created"@,
        opt_text(r.rules@[0].description) == Some("Detect when text files are created"@),
        r.rules@[0].enabled,
        r.rules@[0].trigger matches TriggerConfig::FileCreated { pattern } && opt_text(pattern)
            == Some("*.txt"@),
        r.rules@[0].action matches ActionConfig::Log { message, level } && message@
            == "Text file created!"@ && level@ == "info"@,
{
    let mut paths: Vec<String> = Vec::new();
    paths.push(String::from_str("."));
    let mut sources: Vec<SourceConfig> = Vec::new();
    sources.push(
        SourceConfig {
            name: String::from_str("test_file_watcher"),
            source_type: SourceType::FileWatcher {
                paths,
                pattern: Some(String::from_str("*.txt")),
                recursive: false,
            },
            enabled: true,
        },
    );
    let mut rules: Vec<RuleConfig> = Vec::new();
    rules.push(
        RuleConfig {
            name: String::from_str("text_file_created"),
            description: Some(String::from_str("Detect when text files are created")),
            trigger: TriggerConfig::FileCreated { pattern: Some(String::from_str("*.txt")) },
            action: ActionConfig::Log {
                message: String::from_str("Text file created!"),
                level: String::from_str("info"),
            },
            enabled: true,
        },
    );
    Config {
        engine: EngineConfig { event_buffer_size: 100, log_level: String::from_str("info") },
        sources,
        rules,
    }
}

} // verus!
