//! Actions: what a matched rule sets off. The library decides what a
//! command, a script or a log line is made of, what an outcome means, and
//! how a composite treats the failure of a part; running a process or
//! writing a log line is left to the caller.

use crate::collections::StringMap;
use crate::event::Event;
use crate::text::{concat2, concat3, decimal, join, joined, signed_decimal, views};
use vstd::prelude::*;
use vstd::string::*;

verus! {

/// What an action reports when it did not fail.
#[derive(Debug, Clone)]
pub enum ActionResult {
    Success { message: Option<String> },
    Skipped { reason: String },
}

/// Why an action failed.
#[derive(Debug, Clone)]
pub enum ActionError {
    Execution(String),
    Configuration(String),
    Timeout,
}

impl ActionError {
    /// The message as it is shown to the operator.
    pub open spec fn spec_to_string(&self) -> Seq<char> {
        match self {
            ActionError::Execution(msg) => "Execution error: "@ + msg@,
            ActionError::Configuration(msg) => "Configuration error: "@ + msg@,
            ActionError::Timeout => "Action timed out"@,
        }
    }

    /// The message as it is shown to the operator.
    pub fn to_string(&self) -> (r: String)
        ensures
            r@ == self.spec_to_string(),
    {
        match self {
            ActionError::Execution(msg) => concat2("Execution error: ", msg.as_str()),
            ActionError::Configuration(msg) => concat2("Configuration error: ", msg.as_str()),
            ActionError::Timeout => String::from_str("Action timed out"),
        }
    }
}

/// The outcome of one action.
pub type Outcome = Result<ActionResult, ActionError>;

/// Something that can be set off by an event. What `execute` returns is up
/// to the implementation: it says by `permits` which outcomes it may end
/// with, and the library treats every one of them.
pub trait Action: Send + Sync {
    /// Whether the action may end with this outcome when it is run for the
    /// event. An action that says nothing permits every outcome.
    open spec fn permits(&self, event: &Event, outcome: Outcome) -> bool {
        true
    }

    /// Runs the action for the event.
    fn execute(&self, event: &Event) -> (r: Outcome)
        ensures
            self.permits(event, r),
    ;

    /// A short text that says what the action does.
    fn description(&self) -> String;
}

/// How a child process ended, as the caller that ran it reports it.
#[derive(Debug, Clone)]
pub enum ProcessOutcome {
    /// The process could not be started; the text says why.
    SpawnFailed(String),
    /// The process was started but waiting for it failed; the text says why.
    WaitFailed(String),
    /// The process did not end within its budget.
    TimedOut,
    /// The process ended. `success` tells whether its exit status stands for
    /// success, `code` is the exit code where there is one.
    Exited { success: bool, code: Option<i32>, stdout: String, stderr: String },
}

/// An exit code as it stands in messages: `Some(3)`, `None`.
pub open spec fn exit_code_text(code: Option<i32>) -> Seq<char> {
    match code {
        Some(c) => "Some("@ + signed_decimal(c as int) + ")"@,
        None => "None"@,
    }
}

fn render_exit_code(code: Option<i32>) -> (r: String)
    ensures
        r@ == exit_code_text(code),
{
    match code {
        Some(c) => {
            let digits = crate::text::i64_to_string(c as i64);
            concat3("Some(", digits.as_str(), ")")
        },
        None => String::from_str("None"),
    }
}

/// What a process that was run for an action amounts to. `spawn`, `wait`
/// and `failed` are the texts that introduce the three kinds of failure.
pub open spec fn process_verdict(
    outcome: ProcessOutcome,
    spawn: Seq<char>,
    wait: Seq<char>,
    failed: Seq<char>,
    r: Outcome,
) -> bool {
    match outcome {
        ProcessOutcome::SpawnFailed(why) => r matches Err(ActionError::Execution(m)) && m@ == spawn
            + why@,
        ProcessOutcome::WaitFailed(why) => r matches Err(ActionError::Execution(m)) && m@ == wait
            + why@,
        ProcessOutcome::TimedOut => r matches Err(ActionError::Timeout),
        ProcessOutcome::Exited { success, code, stdout, stderr } => if success {
            r matches Ok(ActionResult::Success { message: Some(m) }) && m@ == stdout@
        } else {
            r matches Err(ActionError::Execution(m)) && m@ == failed + stderr@
        },
    }
}

/// Runs a program with arguments.
#[derive(Debug, Clone)]
pub struct ExecuteAction {
    pub command: String,
    pub args: Vec<String>,
    pub working_dir: Option<String>,
    pub timeout_seconds: Option<u64>,
}

impl ExecuteAction {
    /// A command without arguments or working directory, with a budget of
    /// thirty seconds.
    pub fn new(command: &str) -> (r: Self)
        ensures
            r.command@ == command@,
            r.args@.len() == 0,
            r.working_dir is None,
            r.timeout_seconds == Some(30u64),
    {
        ExecuteAction {
            command: String::from_str(command),
            args: Vec::new(),
            working_dir: None,
            timeout_seconds: Some(30),
        }
    }

    /// The same action with the arguments replaced.
    pub fn with_args(self, args: Vec<String>) -> (r: Self)
        ensures
            r.command == self.command,
            r.args == args,
            r.working_dir == self.working_dir,
            r.timeout_seconds == self.timeout_seconds,
    {
        let mut action = self;
        action.args = args;
        action
    }

    /// The same action, run in the given directory.
    pub fn with_working_dir(self, dir: &str) -> (r: Self)
        ensures
            r.command == self.command,
            r.args == self.args,
            r.working_dir is Some,
            r.working_dir->0@ == dir@,
            r.timeout_seconds == self.timeout_seconds,
    {
        let mut action = self;
        action.working_dir = Some(String::from_str(dir));
        action
    }

    /// The same action with a budget of `seconds`.
    pub fn with_timeout(self, seconds: u64) -> (r: Self)
        ensures
            r.command == self.command,
            r.args == self.args,
            r.working_dir == self.working_dir,
            r.timeout_seconds == Some(seconds),
    {
        let mut action = self;
        action.timeout_seconds = Some(seconds);
        action
    }

    /// The command and its arguments, separated by blanks.
    pub open spec fn spec_command_line(&self) -> Seq<char> {
        self.command@ + " "@ + joined(views(self.args@), " "@)
    }

    /// The command and its arguments, separated by blanks.
    pub fn command_line(&self) -> (r: String)
        ensures
            r@ == self.spec_command_line(),
    {
        let args = join(&self.args, " ");
        concat3(self.command.as_str(), " ", args.as_str())
    }

    /// A short text that says what the action does.
    pub fn description(&self) -> (r: String)
        ensures
            r@ == "Execute: "@ + self.spec_command_line(),
    {
        let line = self.command_line();
        concat2("Execute: ", line.as_str())
    }

    /// The text that introduces the message of a run that ended in failure.
    pub open spec fn failure_prefix(code: Option<i32>) -> Seq<char> {
        "Command failed with exit code "@ + exit_code_text(code) + ": "@
    }

    /// What the action amounts to once its process was run: the captured
    /// output on success, else an execution error that says what failed, or
    /// a timeout.
    pub fn conclude(&self, outcome: &ProcessOutcome) -> (r: Outcome)
        ensures
            process_verdict(
                *outcome,
                "Failed to spawn process: "@,
                "Failed to wait for process: "@,
                Self::failure_prefix(
                    match *outcome {
                        ProcessOutcome::Exited { code, .. } => code,
                        _ => None,
                    },
                ),
                r,
            ),
    {
        match outcome {
            ProcessOutcome::SpawnFailed(why) => Err(
                ActionError::Execution(concat2("Failed to spawn process: ", why.as_str())),
            ),
            ProcessOutcome::WaitFailed(why) => Err(
                ActionError::Execution(concat2("Failed to wait for process: ", why.as_str())),
            ),
            ProcessOutcome::TimedOut => Err(ActionError::Timeout),
            ProcessOutcome::Exited { success, code, stdout, stderr } => {
                if *success {
                    Ok(ActionResult::Success { message: Some(stdout.clone()) })
                } else {
                    let code_text = render_exit_code(*code);
                    let mut message = concat3(
                        "Command failed with exit code ",
                        code_text.as_str(),
                        ": ",
                    );
                    message.append(stderr.as_str());
                    Err(ActionError::Execution(message))
                }
            },
        }
    }
}

/// Runs a script in the system shell.
#[derive(Debug, Clone)]
pub struct PowerShellAction {
    pub script: String,
    pub working_dir: Option<String>,
}

/// The program that runs shell scripts.
pub open spec fn shell_program() -> Seq<char> {
    "powershell.exe"@
}

/// The first `limit` characters of a text, or all of it where it is
/// shorter.
pub open spec fn head_of(text: Seq<char>, limit: int) -> Seq<char> {
    if text.len() <= limit {
        text
    } else {
        text.subrange(0, limit)
    }
}

impl PowerShellAction {
    /// A script without working directory.
    pub fn new(script: &str) -> (r: Self)
        ensures
            r.script@ == script@,
            r.working_dir is None,
    {
        PowerShellAction { script: String::from_str(script), working_dir: None }
    }

    /// The same action, run in the given directory.
    pub fn with_working_dir(self, dir: &str) -> (r: Self)
        ensures
            r.script == self.script,
            r.working_dir is Some,
            r.working_dir->0@ == dir@,
    {
        let mut action = self;
        action.working_dir = Some(String::from_str(dir));
        action
    }

    /// The program to start and its arguments: the shell, told to run the
    /// script as a command.
    pub fn command(&self) -> (r: (String, Vec<String>))
        ensures
            r.0@ == shell_program(),
            r.1@.len() == 2,
            r.1@[0]@ == "-Command"@,
            r.1@[1]@ == self.script@,
    {
        let mut args: Vec<String> = Vec::new();
        args.push(String::from_str("-Command"));
        args.push(self.script.clone());
        (String::from_str("powershell.exe"), args)
    }

    /// A short text that says what the action does: the first fifty
    /// characters of the script.
    pub fn description(&self) -> (r: String)
        ensures
            r@ == "PowerShell: "@ + head_of(self.script@, 50),
    {
        let chars = crate::text::chars_of(self.script.as_str());
        if chars.len() <= 50 {
            concat2("PowerShell: ", self.script.as_str())
        } else {
            let head = self.script.as_str().substring_char(0, 50);
            concat2("PowerShell: ", head)
        }
    }

    /// What the action amounts to once the shell was run.
    pub fn conclude(&self, outcome: &ProcessOutcome) -> (r: Outcome)
        ensures
            process_verdict(
                *outcome,
                "Failed to spawn PowerShell: "@,
                "Failed to wait for PowerShell: "@,
                "PowerShell failed: "@,
                r,
            ),
    {
        match outcome {
            ProcessOutcome::SpawnFailed(why) => Err(
                ActionError::Execution(concat2("Failed to spawn PowerShell: ", why.as_str())),
            ),
            ProcessOutcome::WaitFailed(why) => Err(
                ActionError::Execution(concat2("Failed to wait for PowerShell: ", why.as_str())),
            ),
            ProcessOutcome::TimedOut => Err(ActionError::Timeout),
            ProcessOutcome::Exited { success, code: _, stdout, stderr } => {
                if *success {
                    Ok(ActionResult::Success { message: Some(stdout.clone()) })
                } else {
                    Err(ActionError::Execution(concat2("PowerShell failed: ", stderr.as_str())))
                }
            },
        }
    }
}

/// How loud a log line is.
#[derive(Debug, Clone, Copy, PartialEq, Eq, Structural)]
pub enum LogLevel {
    Debug,
    Info,
    Warn,
    Error,
}

impl LogLevel {
    /// The name of the variant.
    pub open spec fn spec_name(&self) -> Seq<char> {
        match self {
            LogLevel::Debug => "Debug"@,
            LogLevel::Info => "Info"@,
            LogLevel::Warn => "Warn"@,
            LogLevel::Error => "Error"@,
        }
    }

    /// The name of the variant.
    pub fn name(&self) -> (r: String)
        ensures
            r@ == self.spec_name(),
    {
        match self {
            LogLevel::Debug => String::from_str("Debug"),
            LogLevel::Info => String::from_str("Info"),
            LogLevel::Warn => String::from_str("Warn"),
            LogLevel::Error => String::from_str("Error"),
        }
    }

    /// The level that a configured name stands for: `debug`, `info`, `warn`
    /// and `error` name their level, every other text stands for `Info`.
    pub open spec fn spec_parse(name: Seq<char>) -> LogLevel {
        if name == "debug"@ {
            LogLevel::Debug
        } else if name == "warn"@ {
            LogLevel::Warn
        } else if name == "error"@ {
            LogLevel::Error
        } else {
            LogLevel::Info
        }
    }

    /// The level that a configured name stands for.
    pub fn parse(name: &str) -> (r: LogLevel)
        ensures
            r == Self::spec_parse(name@),
    {
        if crate::text::str_eq(name, "debug") {
            LogLevel::Debug
        } else if crate::text::str_eq(name, "warn") {
            LogLevel::Warn
        } else if crate::text::str_eq(name, "error") {
            LogLevel::Error
        } else {
            LogLevel::Info
        }
    }
}

/// Writes a line to the log.
#[derive(Debug, Clone)]
pub struct LogAction {
    pub message: String,
    pub level: LogLevel,
}

impl LogAction {
    /// A log line at level `Info`.
    pub fn new(message: &str) -> (r: Self)
        ensures
            r.message@ == message@,
            r.level == LogLevel::Info,
    {
        LogAction { message: String::from_str(message), level: LogLevel::Info }
    }

    /// The same line at another level.
    pub fn with_level(self, level: LogLevel) -> (r: Self)
        ensures
            r.message == self.message,
            r.level == level,
    {
        let mut action = self;
        action.level = level;
        action
    }

    /// The line that is logged for an event: the message, then the kind of
    /// the event in square brackets.
    pub open spec fn spec_line(&self, event: &Event) -> Seq<char> {
        self.message@ + " [Event: "@ + event.kind.spec_name() + "]"@
    }

    /// The line that is logged for an event.
    pub fn line(&self, event: &Event) -> (r: String)
        ensures
            r@ == self.spec_line(event),
    {
        let kind = event.kind.name();
        let mut out = concat3(self.message.as_str(), " [Event: ", kind.as_str());
        out.append("]");
        out
    }

    /// What the action amounts to once the line is written: success
    /// without a message.
    pub fn conclude(&self) -> (r: Outcome)
        ensures
            r matches Ok(ActionResult::Success { message: None }),
    {
        Ok(ActionResult::Success { message: None })
    }

    /// A short text that says what the action does.
    pub fn description(&self) -> (r: String)
        ensures
            r@ == "Log ["@ + self.level.spec_name() + "]: "@ + self.message@,
    {
        let level = self.level.name();
        let mut out = concat3("Log [", level.as_str(), "]: ");
        out.append(self.message.as_str());
        out
    }
}

/// What a composite does when one of its parts fails.
#[derive(Debug, Clone, Copy, PartialEq, Eq, Structural)]
pub enum ErrorBehavior {
    /// Ignore the failure and go on with the next part.
    Continue,
    /// Give up and report the failure.
    Stop,
    /// Run no further part and report success for those that ran.
    SkipRemaining,
}

/// Whether a composite with the policy runs no further part after this
/// outcome.
pub open spec fn ends_run(policy: ErrorBehavior, outcome: Outcome) -> bool {
    outcome is Err && policy != ErrorBehavior::Continue
}

/// How many of the first `n` outcomes are successes.
pub open spec fn successes(outcomes: Seq<Outcome>, n: int) -> nat
    decreases n,
{
    if n <= 0 || n > outcomes.len() {
        0
    } else if outcomes[n - 1] is Ok {
        successes(outcomes, n - 1) + 1
    } else {
        successes(outcomes, n - 1)
    }
}

/// Whether `outcomes` can be what the parts of a composite with `parts`
/// parts returned, in order: only the last outcome may end the run, and
/// the run is shorter than the list of parts only where it was ended.
pub open spec fn is_run(policy: ErrorBehavior, parts: nat, outcomes: Seq<Outcome>) -> bool {
    &&& outcomes.len() <= parts
    &&& forall|i: int| 0 <= i < outcomes.len() - 1 ==> !ends_run(policy, #[trigger] outcomes[i])
    &&& outcomes.len() < parts ==> outcomes.len() > 0 && ends_run(policy, outcomes.last())
}

/// The message of a composite that did not give up.
pub open spec fn summary_text(count: nat) -> Seq<char> {
    "Executed "@ + decimal(count) + " actions"@
}

/// Whether `r` is what a composite reports for a run: with `Stop`, the
/// failure that ended the run; in every other case success, with the
/// number of parts that succeeded.
pub open spec fn is_report(policy: ErrorBehavior, outcomes: Seq<Outcome>, r: Outcome) -> bool {
    if policy == ErrorBehavior::Stop && outcomes.len() > 0 && outcomes.last() is Err {
        r == outcomes.last()
    } else {
        r matches Ok(ActionResult::Success { message: Some(m) }) && m@ == summary_text(
            successes(outcomes, outcomes.len() as int),
        )
    }
}

/// The length of the run that a composite makes of the first `n` outcomes:
/// up to and with the first one that ends the run.
pub open spec fn run_length(policy: ErrorBehavior, outcomes: Seq<Outcome>, n: int) -> int
    decreases n,
{
    if n <= 0 || n > outcomes.len() {
        0
    } else {
        let before = run_length(policy, outcomes, n - 1);
        if before < n - 1 || (before > 0 && ends_run(policy, outcomes[before - 1])) {
            before
        } else {
            n
        }
    }
}

fn summary(count: usize) -> (r: Outcome)
    ensures
        r matches Ok(ActionResult::Success { message: Some(m) }) && m@ == summary_text(count as nat),
{
    let digits = crate::text::u64_to_string(count as u64);
    Ok(ActionResult::Success { message: Some(concat3("Executed ", digits.as_str(), " actions")) })
}

/// A copy of an error, equal to it.
pub fn copy_error(error: &ActionError) -> (r: ActionError)
    ensures
        r == *error,
{
    match error {
        ActionError::Execution(msg) => ActionError::Execution(msg.clone()),
        ActionError::Configuration(msg) => ActionError::Configuration(msg.clone()),
        ActionError::Timeout => ActionError::Timeout,
    }
}

/// What a composite reports when its parts, run in order, return the given
/// outcomes: the outcomes after the first one that ends the run are those
/// of parts that are not run, and do not count.
pub fn report_for(policy: ErrorBehavior, outcomes: &Vec<Outcome>) -> (r: Outcome)
    ensures
        is_run(
            policy,
            outcomes@.len(),
            outcomes@.take(run_length(policy, outcomes@, outcomes@.len() as int)),
        ),
        is_report(
            policy,
            outcomes@.take(run_length(policy, outcomes@, outcomes@.len() as int)),
            r,
        ),
{
    let ghost all = outcomes@;
    let total: usize = outcomes.len();
    let mut count: usize = 0;
    let mut i: usize = 0;
    while i < total
        invariant
            i <= total,
            total == all.len(),
            all == outcomes@,
            count == successes(all, i as int),
            count <= i,
            run_length(policy, all, i as int) == i,
            forall|k: int| 0 <= k < i ==> !ends_run(policy, #[trigger] all[k]),
        decreases total - i,
    {
        match &outcomes[i] {
            Ok(_) => {
                count = count + 1;
                i = i + 1;
            },
            Err(e) => {
                match policy {
                    ErrorBehavior::Continue => {
                        i = i + 1;
                    },
                    ErrorBehavior::Stop => {
                        proof {
                            lemma_run_ends(policy, all, i as int, total as int);
                            let run = all.take(i + 1);
                            assert(run.last() == all[i as int]);
                            assert(is_run(policy, all.len(), run));
                        }
                        return Err(copy_error(e));
                    },
                    ErrorBehavior::SkipRemaining => {
                        proof {
                            lemma_run_ends(policy, all, i as int, total as int);
                            let run = all.take(i + 1);
                            assert(run.last() == all[i as int]);
                            lemma_successes_take(all, i + 1, i + 1);
                            assert(is_run(policy, all.len(), run));
                        }
                        return summary(count);
                    },
                }
            },
        }
    }
    proof {
        assert(all.take(total as int) =~= all);
    }
    summary(count)
}

/// While no outcome among the first `i` ends the run, the run covers them.
proof fn lemma_run_ends(policy: ErrorBehavior, all: Seq<Outcome>, i: int, n: int)
    requires
        0 <= i < n <= all.len(),
        run_length(policy, all, i) == i,
        forall|k: int| 0 <= k < i ==> !ends_run(policy, #[trigger] all[k]),
        ends_run(policy, all[i]),
    ensures
        run_length(policy, all, n) == i + 1,
    decreases n - i,
{
    if n == i + 1 {
        if i > 0 {
            assert(!ends_run(policy, all[i - 1]));
        }
    } else {
        lemma_run_ends(policy, all, i, n - 1);
    }
}

/// Counting successes among the first `n` outcomes of a prefix is counting
/// them in the whole list.
proof fn lemma_successes_take(all: Seq<Outcome>, len: int, n: int)
    requires
        0 <= n <= len <= all.len(),
    ensures
        successes(all.take(len), n) == successes(all, n),
    decreases n,
{
    if n > 0 {
        lemma_successes_take(all, len, n - 1);
    }
}

/// Runs its parts in order and treats a failure by its policy.
pub struct CompositeAction {
    pub actions: Vec<Box<dyn Action>>,
    pub on_error: ErrorBehavior,
}

impl CompositeAction {
    /// A composite that ignores failures of its parts.
    pub fn new(actions: Vec<Box<dyn Action>>) -> (r: Self)
        ensures
            r.actions == actions,
            r.on_error == ErrorBehavior::Continue,
    {
        CompositeAction { actions, on_error: ErrorBehavior::Continue }
    }

    /// The same composite with another policy.
    pub fn with_error_behavior(self, behavior: ErrorBehavior) -> (r: Self)
        ensures
            r.actions == self.actions,
            r.on_error == behavior,
    {
        let mut action = self;
        action.on_error = behavior;
        action
    }

    /// Whether the outcomes are those of the leading parts, one each and in
    /// order, each one that its part permits for the event.
    pub open spec fn spec_outcomes(&self, event: &Event, outcomes: Seq<Outcome>) -> bool {
        &&& outcomes.len() <= self.actions@.len()
        &&& forall|k: int|
            0 <= k < outcomes.len() ==> (#[trigger] self.actions@[k]).permits(event, outcomes[k])
    }

    /// Whether `r` is what the composite reports for the event: the parts
    /// that ran did so in order, from the first, each once; their outcomes
    /// form a run under the policy, and `r` is the report for that run.
    pub open spec fn spec_reports(&self, event: &Event, r: Outcome) -> bool {
        exists|outcomes: Seq<Outcome>|
            self.spec_outcomes(event, outcomes) && is_run(
                self.on_error,
                self.actions@.len(),
                outcomes,
            ) && #[trigger] is_report(self.on_error, outcomes, r)
    }

    /// Runs the parts in order. Whatever the parts return, the outcomes of
    /// those that ran form a run under the policy, and the result is the
    /// report for that run.
    pub fn run(&self, event: &Event) -> (r: Outcome)
        ensures
            self.spec_reports(event, r),
    {
        let ghost mut seen: Seq<Outcome> = Seq::empty();
        let mut count: usize = 0;
        let mut i: usize = 0;
        while i < self.actions.len()
            invariant
                i <= self.actions@.len(),
                seen.len() == i,
                count == successes(seen, i as int),
                count <= i,
                forall|k: int| 0 <= k < i ==> !ends_run(self.on_error, #[trigger] seen[k]),
                self.spec_outcomes(event, seen),
            decreases self.actions@.len() - i,
        {
            let outcome = self.actions[i].execute(event);
            let ghost before = seen;
            proof {
                seen = seen.push(outcome);
                lemma_successes_push(before, outcome);
            }
            match outcome {
                Ok(_) => {
                    count = count + 1;
                    i = i + 1;
                },
                Err(e) => {
                    match self.on_error {
                        ErrorBehavior::Continue => {
                            i = i + 1;
                        },
                        ErrorBehavior::Stop => {
                            assert(is_run(self.on_error, self.actions@.len(), seen));
                            assert(is_report(self.on_error, seen, Err(e)));
                            return Err(e);
                        },
                        ErrorBehavior::SkipRemaining => {
                            let r = summary(count);
                            assert(is_run(self.on_error, self.actions@.len(), seen));
                            assert(is_report(self.on_error, seen, r));
                            return r;
                        },
                    }
                },
            }
        }
        let r = summary(count);
        assert(is_run(self.on_error, self.actions@.len(), seen));
        assert(is_report(self.on_error, seen, r));
        r
    }

    /// A short text that says what the action does.
    pub fn describe(&self) -> (r: String)
        ensures
            r@ == "Composite ("@ + decimal(self.actions@.len()) + " actions)"@,
    {
        let digits = crate::text::u64_to_string(self.actions.len() as u64);
        concat3("Composite (", digits.as_str(), " actions)")
    }
}

/// Counting successes after one more outcome.
proof fn lemma_successes_push(before: Seq<Outcome>, outcome: Outcome)
    ensures
        successes(before.push(outcome), before.len() as int + 1) == successes(
            before,
            before.len() as int,
        )
            + (if outcome is Ok {
            1nat
        } else {
            0nat
        }),
{
    let after = before.push(outcome);
    assert(after[before.len() as int] == outcome);
    lemma_successes_prefix(before, after, before.len() as int);
}

proof fn lemma_successes_prefix(a: Seq<Outcome>, b: Seq<Outcome>, n: int)
    requires
        0 <= n <= a.len() <= b.len(),
        forall|k: int| 0 <= k < a.len() ==> a[k] == b[k],
    ensures
        successes(a, n) == successes(b, n),
    decreases n,
{
    if n > 0 {
        lemma_successes_prefix(a, b, n - 1);
    }
}

impl Action for CompositeAction {
    open spec fn permits(&self, event: &Event, outcome: Outcome) -> bool {
        self.spec_reports(event, outcome)
    }

    fn execute(&self, event: &Event) -> (r: Outcome) {
        self.run(event)
    }

    fn description(&self) -> (r: String)
        ensures
            r@ == "Composite ("@ + decimal(self.actions@.len()) + " actions)"@,
    {
        self.describe()
    }
}

/// The message for a name under which no action is registered.
pub open spec fn not_found_text(name: Seq<char>) -> Seq<char> {
    "Action '"@ + name + "' not found"@
}

/// The registry of actions by name.
pub struct ActionExecutor {
    actions: StringMap<Box<dyn Action>>,
}

impl View for ActionExecutor {
    type V = Map<Seq<char>, Box<dyn Action>>;

    closed spec fn view(&self) -> Map<Seq<char>, Box<dyn Action>> {
        self.actions@
    }
}

impl ActionExecutor {
    /// An empty registry.
    pub fn new() -> (r: Self)
        ensures
            r@ == Map::<Seq<char>, Box<dyn Action>>::empty(),
            r@.dom() == Set::<Seq<char>>::empty(),
    {
        ActionExecutor { actions: StringMap::new() }
    }

    /// Registers the action under the name, in place of what was
    /// registered under it before: the name is registered from now on, and
    /// every other name keeps its action.
    pub fn register(&mut self, name: &str, action: Box<dyn Action>)
        ensures
            final(self)@ == old(self)@.insert(name@, action),
            final(self)@.dom() == old(self)@.dom().insert(name@),
            forall|other: Seq<char>|
                other != name@ && old(self)@.dom().contains(other) ==> #[trigger] final(self)@[other]
                    == old(self)@[other],
    {
        self.actions.insert(String::from_str(name), action);
    }

    /// Whether an action is registered under the name.
    pub fn contains(&self, name: &str) -> (r: bool)
        ensures
            r == self@.dom().contains(name@),
    {
        self.actions.contains_key(name)
    }

    /// The number of registered names.
    pub closed spec fn spec_len(&self) -> nat {
        self.actions.spec_entries().len()
    }

    /// The number of registered names.
    pub fn len(&self) -> (n: usize)
        ensures
            n == self.spec_len(),
    {
        self.actions.len()
    }

    /// Whether `r` is what running the action of that name for the event
    /// gives: an outcome that the registered action permits, or, where
    /// none is registered, the configuration error that names the name.
    pub open spec fn spec_execute(&self, name: Seq<char>, event: &Event, r: Outcome) -> bool {
        if self@.dom().contains(name) {
            self@[name].permits(event, r)
        } else {
            r matches Err(ActionError::Configuration(m)) && m@ == not_found_text(name)
        }
    }

    /// Runs the action registered under the name, once. Where none is
    /// registered, the result is a configuration error that names the
    /// name, and nothing is run.
    pub fn execute(&self, name: &str, event: &Event) -> (r: Outcome)
        ensures
            self.spec_execute(name@, event, r),
    {
        match self.actions.get(name) {
            Some(action) => action.execute(event),
            None => Err(ActionError::Configuration(concat3("Action '", name, "' not found"))),
        }
    }
}

impl Default for ActionExecutor {
    fn default() -> (r: Self)
        ensures
            r@ == Map::<Seq<char>, Box<dyn Action>>::empty(),
            r@.dom() == Set::<Seq<char>>::empty(),
    {
        ActionExecutor::new()
    }
}

} // verus!
