//! Script actions. A script runs in a fresh interpreter per event; the
//! library decides how that interpreter is prepared, in which order, and
//! what the script's answer means. The interpreter itself belongs to the
//! caller.

use crate::actions::{ActionError, ActionResult, Outcome};
use crate::event::Event;
use crate::text::{concat2, concat3, lowercase, str_eq, to_lowercase, views};
use vstd::prelude::*;
use vstd::string::*;

verus! {

/// Whether `std::path::Path::starts_with` finds `base` to be a leading run
/// of whole components of `path`, on the platform the crate is built for.
pub uninterp spec fn path_starts_with(path: Seq<char>, base: Seq<char>) -> bool;

/// The kind of a component of a path.
#[derive(Debug, Clone, Copy, PartialEq, Eq, Structural)]
pub enum PartKind {
    /// A drive or share before the root, as Windows paths have it.
    Prefix,
    /// The root directory.
    Root,
    /// `.`, the directory itself.
    Current,
    /// `..`, the directory above.
    Parent,
    /// A name.
    Normal,
}

/// A component of a path: its kind and its text.
#[derive(Debug)]
pub struct PathPart {
    pub kind: PartKind,
    pub text: String,
}

/// The components as kinds and texts.
pub open spec fn part_views(parts: Seq<PathPart>) -> Seq<(PartKind, Seq<char>)> {
    parts.map_values(|p: PathPart| (p.kind, p.text@))
}

/// The path that `std::path::Path::join` makes of `base` and `path`, on
/// the platform the crate is built for: `path` itself where it is
/// absolute, else `path` taken against `base`.
pub uninterp spec fn path_join(base: Seq<char>, path: Seq<char>) -> Seq<char>;

/// The components of a path as `std::path::Path::components` yields them,
/// each with its kind and its text, on the platform the crate is built
/// for.
pub uninterp spec fn path_components(path: Seq<char>) -> Seq<(PartKind, Seq<char>)>;

/// Calls `std::path::Path::starts_with` on the two texts taken as paths.
#[verifier::external_body]
fn starts_with_path(path: &str, base: &str) -> (r: bool)
    ensures
        r == path_starts_with(path@, base@),
{
    std::path::Path::new(path).starts_with(std::path::Path::new(base))
}

/// Calls `std::path::Path::join`; the joined path comes back as text.
#[verifier::external_body]
fn join_paths(base: &str, path: &str) -> (r: String)
    ensures
        r@ == path_join(base@, path@),
{
    std::path::Path::new(base).join(path).to_string_lossy().into_owned()
}

/// Calls `std::path::Path::components` and hands each component out with
/// its kind and its text.
#[verifier::external_body]
fn components_of(path: &str) -> (r: Vec<PathPart>)
    ensures
        part_views(r@) == path_components(path@),
{
    std::path::Path::new(path).components().map(|c| {
        let kind = match c {
            std::path::Component::Prefix(_) => PartKind::Prefix,
            std::path::Component::RootDir => PartKind::Root,
            std::path::Component::CurDir => PartKind::Current,
            std::path::Component::ParentDir => PartKind::Parent,
            std::path::Component::Normal(_) => PartKind::Normal,
        };
        PathPart { kind, text: c.as_os_str().to_string_lossy().into_owned() }
    }).collect()
}

/// What a script action does when the script fails.
#[derive(Debug, Clone, Copy, PartialEq, Eq, Structural)]
pub enum ScriptErrorBehavior {
    /// The action fails.
    Fail,
    /// The action succeeds with a message that tells of the failure.
    Continue,
    /// As `Continue`; the failure is only logged.
    Log,
}

impl Default for ScriptErrorBehavior {
    fn default() -> (r: Self)
        ensures
            r == ScriptErrorBehavior::Fail,
    {
        ScriptErrorBehavior::Fail
    }
}

impl ScriptErrorBehavior {
    /// The behaviour that a text names, letter case aside: `fail`,
    /// `continue` or `log`. Other texts name none.
    pub open spec fn spec_parse(text: Seq<char>) -> Option<ScriptErrorBehavior> {
        if lowercase(text) == "fail"@ {
            Some(ScriptErrorBehavior::Fail)
        } else if lowercase(text) == "continue"@ {
            Some(ScriptErrorBehavior::Continue)
        } else if lowercase(text) == "log"@ {
            Some(ScriptErrorBehavior::Log)
        } else {
            None
        }
    }

    /// The behaviour that a text names; for a text that names none, an
    /// error message that quotes it.
    pub fn parse(text: &str) -> (r: Result<ScriptErrorBehavior, String>)
        ensures
            match Self::spec_parse(text@) {
                Some(b) => r == Ok::<ScriptErrorBehavior, String>(b),
                None => r matches Err(m) && m@ == "Invalid error behavior: "@ + text@,
            },
    {
        let lower = to_lowercase(text);
        if str_eq(lower.as_str(), "fail") {
            Ok(ScriptErrorBehavior::Fail)
        } else if str_eq(lower.as_str(), "continue") {
            Ok(ScriptErrorBehavior::Continue)
        } else if str_eq(lower.as_str(), "log") {
            Ok(ScriptErrorBehavior::Log)
        } else {
            Err(concat2("Invalid error behavior: ", text))
        }
    }
}

impl std::str::FromStr for ScriptErrorBehavior {
    type Err = String;

    /// The behaviour that a text names, as `parse` gives it.
    fn from_str(s: &str) -> (r: Result<Self, Self::Err>)
        ensures
            match Self::spec_parse(s@) {
                Some(b) => r == Ok::<ScriptErrorBehavior, String>(b),
                None => r matches Err(m) && m@ == "Invalid error behavior: "@ + s@,
            },
    {
        ScriptErrorBehavior::parse(s)
    }
}

/// What came of loading a script into a prepared interpreter to check it.
#[derive(Debug, Clone)]
pub enum ScriptProbe {
    /// The source does not load; the text is the interpreter's message.
    SyntaxError(String),
    /// Looking up the entry function failed; the text is the interpreter's
    /// message.
    LookupFailed(String),
    /// The name of the entry function is bound to something that is no
    /// function.
    NotAFunction,
    /// The source loads and the entry function is there.
    Valid,
}

/// What a run of the entry function came to.
#[derive(Debug, Clone)]
pub enum ScriptOutcome {
    /// Preparing the interpreter failed.
    SetupFailed(String),
    /// The source did not load.
    LoadFailed(String),
    /// The entry function was not found.
    FunctionMissing(String),
    /// The function raised an error.
    Raised(String),
    /// The function returned. `success` and `message` are the fields of
    /// those names of the returned table, where it is a table and has them
    /// with a boolean and a text.
    Returned { success: Option<bool>, message: Option<String> },
}

/// One step of preparing an interpreter and running a script in it.
#[derive(Debug, Clone, PartialEq, Eq)]
pub enum SandboxStep {
    /// Bind the global of this name to the null value.
    Clear(String),
    /// Bind the global of this name to the host's table or function of
    /// that name.
    Install(String),
    /// Load the source of the user's script.
    Load,
    /// Call the entry function with the event table.
    Call,
}

/// The globals of a fresh interpreter that give a script a way to load
/// code or to reach the operating system without restriction.
pub open spec fn removed_globals() -> Seq<Seq<char>> {
    seq!["dofile"@, "loadfile"@, "load"@, "require"@, "io"@, "os"@, "debug"@]
}

/// The globals that the host provides: logging, running a program, HTTP,
/// JSON, restricted file operations, and date and time under the name
/// `os`.
pub open spec fn host_globals() -> Seq<Seq<char>> {
    seq!["log"@, "exec"@, "http"@, "json"@, "fs"@, "os"@]
}

/// The view of a step.
pub open spec fn step_view(step: SandboxStep) -> (int, Seq<char>) {
    match step {
        SandboxStep::Clear(name) => (0, name@),
        SandboxStep::Install(name) => (1, name@),
        SandboxStep::Load => (2, Seq::empty()),
        SandboxStep::Call => (3, Seq::empty()),
    }
}

/// The steps in order: every removed global is cleared, then the host's
/// globals are installed, then the script is loaded, then its entry
/// function is called.
pub open spec fn plan_view() -> Seq<(int, Seq<char>)> {
    seq![
        (0int, "dofile"@),
        (0int, "loadfile"@),
        (0int, "load"@),
        (0int, "require"@),
        (0int, "io"@),
        (0int, "os"@),
        (0int, "debug"@),
        (1int, "log"@),
        (1int, "exec"@),
        (1int, "http"@),
        (1int, "json"@),
        (1int, "fs"@),
        (1int, "os"@),
        (2int, Seq::<char>::empty()),
        (3int, Seq::<char>::empty()),
    ]
}

/// The names of the globals to clear, in order.
pub fn globals_to_clear() -> (r: Vec<String>)
    ensures
        r@.map_values(|s: String| s@) == removed_globals(),
{
    let mut names: Vec<String> = Vec::new();
    names.push(String::from_str("dofile"));
    names.push(String::from_str("loadfile"));
    names.push(String::from_str("load"));
    names.push(String::from_str("require"));
    names.push(String::from_str("io"));
    names.push(String::from_str("os"));
    names.push(String::from_str("debug"));
    assert(names@.map_values(|s: String| s@) =~= removed_globals());
    names
}

/// The names of the globals that the host installs, in order.
pub fn globals_to_install() -> (r: Vec<String>)
    ensures
        r@.map_values(|s: String| s@) == host_globals(),
{
    let mut names: Vec<String> = Vec::new();
    names.push(String::from_str("log"));
    names.push(String::from_str("exec"));
    names.push(String::from_str("http"));
    names.push(String::from_str("json"));
    names.push(String::from_str("fs"));
    names.push(String::from_str("os"));
    assert(names@.map_values(|s: String| s@) =~= host_globals());
    names
}

/// The steps that prepare an interpreter and run a script, in order.
pub fn sandbox_plan() -> (r: Vec<SandboxStep>)
    ensures
        r@.map_values(|s: SandboxStep| step_view(s)) == plan_view(),
{
    let mut plan: Vec<SandboxStep> = Vec::new();
    plan.push(SandboxStep::Clear(String::from_str("dofile")));
    plan.push(SandboxStep::Clear(String::from_str("loadfile")));
    plan.push(SandboxStep::Clear(String::from_str("load")));
    plan.push(SandboxStep::Clear(String::from_str("require")));
    plan.push(SandboxStep::Clear(String::from_str("io")));
    plan.push(SandboxStep::Clear(String::from_str("os")));
    plan.push(SandboxStep::Clear(String::from_str("debug")));
    plan.push(SandboxStep::Install(String::from_str("log")));
    plan.push(SandboxStep::Install(String::from_str("exec")));
    plan.push(SandboxStep::Install(String::from_str("http")));
    plan.push(SandboxStep::Install(String::from_str("json")));
    plan.push(SandboxStep::Install(String::from_str("fs")));
    plan.push(SandboxStep::Install(String::from_str("os")));
    plan.push(SandboxStep::Load);
    plan.push(SandboxStep::Call);
    assert(plan@.map_values(|s: SandboxStep| step_view(s)) =~= plan_view());
    plan
}

/// The functions that the host's table of a name holds, in order:
/// logging at four levels under `log`, the two requests under `http`,
/// encoding and decoding under `json`, the file operations under `fs`,
/// and date and time under `os`. `exec` is a function and holds none;
/// neither does a name that the host does not provide.
pub open spec fn host_fields_of(name: Seq<char>) -> Seq<Seq<char>> {
    if name == "log"@ {
        seq!["debug"@, "info"@, "warn"@, "error"@]
    } else if name == "http"@ {
        seq!["get"@, "post"@]
    } else if name == "json"@ {
        seq!["encode"@, "decode"@]
    } else if name == "fs"@ {
        seq!["file_size"@, "exists"@, "basename"@, "move"@, "delete"@]
    } else if name == "os"@ {
        seq!["date"@, "time"@]
    } else {
        Seq::empty()
    }
}

/// The names of the functions that the host's table of a name holds.
pub fn host_fields(name: &str) -> (r: Vec<String>)
    ensures
        views(r@) == host_fields_of(name@),
{
    let mut fields: Vec<String> = Vec::new();
    if str_eq(name, "log") {
        fields.push(String::from_str("debug"));
        fields.push(String::from_str("info"));
        fields.push(String::from_str("warn"));
        fields.push(String::from_str("error"));
    } else if str_eq(name, "http") {
        fields.push(String::from_str("get"));
        fields.push(String::from_str("post"));
    } else if str_eq(name, "json") {
        fields.push(String::from_str("encode"));
        fields.push(String::from_str("decode"));
    } else if str_eq(name, "fs") {
        fields.push(String::from_str("file_size"));
        fields.push(String::from_str("exists"));
        fields.push(String::from_str("basename"));
        fields.push(String::from_str("move"));
        fields.push(String::from_str("delete"));
    } else if str_eq(name, "os") {
        fields.push(String::from_str("date"));
        fields.push(String::from_str("time"));
    }
    assert(views(fields@) =~= host_fields_of(name@));
    fields
}

/// A key of a table that a script hands to the host.
#[derive(Debug, Clone, PartialEq, Eq)]
pub enum TableKey {
    /// A whole number.
    Integer(i64),
    /// A text.
    Text(String),
    /// Anything else.
    Other,
}

/// How a table of a script is written as JSON.
#[derive(Debug, Clone, Copy, PartialEq, Eq, Structural)]
pub enum TableShape {
    /// As an array of the values under the keys 1, 2 and so on.
    Array,
    /// As an object with one member for each key.
    Object,
}

/// The number that a key is; zero for a key that is none.
pub open spec fn key_number(key: TableKey) -> int {
    match key {
        TableKey::Integer(i) => i as int,
        _ => 0,
    }
}

/// Whether the first `i` keys are whole numbers from 1 to `n`, no two of
/// them the same.
pub open spec fn numbered(keys: Seq<TableKey>, n: int, i: int) -> bool {
    &&& forall|k: int|
        0 <= k < i ==> (#[trigger] keys[k]) is Integer && 1 <= key_number(keys[k]) <= n
    &&& forall|a: int, b: int|
        0 <= a < b < i ==> key_number(#[trigger] keys[a]) != key_number(#[trigger] keys[b])
}

/// Whether the keys are those of a sequence: there is one at least, and
/// they are the whole numbers from 1 to their count, each once.
pub open spec fn is_sequence(keys: Seq<TableKey>) -> bool {
    keys.len() > 0 && numbered(keys, keys.len() as int, keys.len() as int)
}

/// Whether one of the first `i` keys is neither a whole number nor a text.
pub open spec fn has_odd_key(keys: Seq<TableKey>, i: int) -> bool {
    exists|k: int| 0 <= k < i && (#[trigger] keys[k]) is Other
}

/// Whether `r` is how a table with these keys is written: a sequence as
/// an array; any other table as an object, which fails where a key is
/// neither a whole number nor a text.
pub open spec fn is_table_shape(keys: Seq<TableKey>, r: Result<TableShape, ActionError>) -> bool {
    if is_sequence(keys) {
        r matches Ok(TableShape::Array)
    } else if has_odd_key(keys, keys.len() as int) {
        r matches Err(ActionError::Execution(m)) && m@ == "Invalid table key"@
    } else {
        r matches Ok(TableShape::Object)
    }
}

/// How a table with these keys is written as JSON.
pub fn table_shape(keys: &Vec<TableKey>) -> (r: Result<TableShape, ActionError>)
    ensures
        is_table_shape(keys@, r),
{
    let n: usize = keys.len();
    let mut seen: Vec<bool> = Vec::new();
    let mut j: usize = 0;
    while j < n
        invariant
            j <= n,
            seen@.len() == j,
            forall|k: int| 0 <= k < j ==> !seen@[k],
        decreases n - j,
    {
        seen.push(false);
        j = j + 1;
    }
    let mut sequence: bool = n > 0;
    let mut odd: bool = false;
    let mut i: usize = 0;
    while i < n
        invariant
            i <= n,
            n == keys@.len(),
            seen@.len() == n,
            sequence <==> (n > 0 && numbered(keys@, n as int, i as int)),
            sequence ==> forall|p: int|
                0 <= p < n ==> (#[trigger] seen@[p] <==> exists|k: int|
                    0 <= k < i && key_number(#[trigger] keys@[k]) == p + 1),
            odd <==> has_odd_key(keys@, i as int),
        decreases n - i,
    {
        let ghost before = seen@;
        let ghost was = sequence;
        match &keys[i] {
            TableKey::Integer(v) => {
                let v: i64 = *v;
                if sequence {
                    if v >= 1 && (v as u64) <= (n as u64) {
                        let at: usize = (v - 1) as usize;
                        if seen[at] {
                            proof {
                                let k = choose|k: int|
                                    0 <= k < i && key_number(#[trigger] keys@[k]) == at + 1;
                                assert(key_number(keys@[k]) == key_number(keys@[i as int]));
                            }
                            sequence = false;
                        } else {
                            seen.set(at, true);
                            proof {
                                assert forall|a: int, b: int| 0 <= a < b < i + 1 implies key_number(
                                    #[trigger] keys@[a],
                                ) != key_number(#[trigger] keys@[b]) by {
                                    if b == i && key_number(keys@[a]) == v {
                                        assert(before[at as int]);
                                    }
                                }
                                assert forall|p: int| 0 <= p < n implies (#[trigger] seen@[p]
                                    <==> exists|k: int|
                                    0 <= k < i + 1 && key_number(#[trigger] keys@[k]) == p + 1) by {
                                    if p == at {
                                        assert(key_number(keys@[i as int]) == p + 1);
                                    } else {
                                        if before[p] {
                                            let k = choose|k: int|
                                                0 <= k < i && key_number(#[trigger] keys@[k]) == p
                                                    + 1;
                                            assert(0 <= k < i + 1);
                                        }
                                    }
                                }
                            }
                        }
                    } else {
                        proof {
                            assert(!(1 <= key_number(keys@[i as int]) <= n));
                        }
                        sequence = false;
                    }
                }
            },
            TableKey::Text(_) => {
                proof {
                    assert(!(keys@[i as int] is Integer));
                }
                sequence = false;
            },
            TableKey::Other => {
                proof {
                    assert(!(keys@[i as int] is Integer));
                    assert(keys@[i as int] is Other);
                }
                sequence = false;
                odd = true;
            },
        }
        proof {
            if !was {
                assert(!(n > 0 && numbered(keys@, n as int, i + 1))) by {
                    if n > 0 && numbered(keys@, n as int, i + 1) {
                        assert(numbered(keys@, n as int, i as int));
                    }
                }
            }
            assert(odd <==> has_odd_key(keys@, i + 1)) by {
                if has_odd_key(keys@, i + 1) {
                    let k = choose|k: int| 0 <= k < i + 1 && (#[trigger] keys@[k]) is Other;
                    if k < i {
                        assert(has_odd_key(keys@, i as int));
                    }
                }
                if has_odd_key(keys@, i as int) {
                    let k = choose|k: int| 0 <= k < i && (#[trigger] keys@[k]) is Other;
                    assert(0 <= k < i + 1 && keys@[k] is Other);
                }
            }
        }
        i = i + 1;
    }
    if sequence {
        Ok(TableShape::Array)
    } else if odd {
        Err(ActionError::Execution(String::from_str("Invalid table key")))
    } else {
        Ok(TableShape::Object)
    }
}

/// What a global is bound to while the steps are carried out, as far as
/// the steps decide it.
pub enum Binding {
    /// No step has touched the global: it is what a fresh interpreter
    /// holds.
    Untouched,
    /// The null value.
    Null,
    /// The host's table or function.
    Host,
}

/// What the global `name` is bound to after the first `n` steps.
pub open spec fn binding_after(steps: Seq<(int, Seq<char>)>, name: Seq<char>, n: int) -> Binding
    decreases n,
{
    if n <= 0 || n > steps.len() {
        Binding::Untouched
    } else if steps[n - 1] == (0int, name) {
        Binding::Null
    } else if steps[n - 1] == (1int, name) {
        Binding::Host
    } else {
        binding_after(steps, name, n - 1)
    }
}

/// The place of the step that loads the user's script.
pub open spec fn load_index() -> int {
    13
}

/// The steps clear exactly the removed globals and install exactly the
/// host's globals, all of it before the user's script is loaded.
pub proof fn lemma_plan_shape()
    ensures
        plan_view()[load_index()] == (2int, Seq::<char>::empty()),
        forall|i: int|
            0 <= i < removed_globals().len() ==> #[trigger] plan_view()[i] == (
                0int,
                removed_globals()[i],
            ),
        forall|i: int|
            0 <= i < host_globals().len() ==> #[trigger] plan_view()[removed_globals().len() + i]
                == (1int, host_globals()[i]),
        removed_globals().len() + host_globals().len() == load_index(),
{
}

/// When the user's script is loaded, every removed global is bound to the
/// null value, but for `os`, which is bound to the host's table of date
/// and time functions.
pub proof fn lemma_sandbox_before_load(name: Seq<char>)
    requires
        removed_globals().contains(name),
    ensures
        name != "os"@ ==> binding_after(plan_view(), name, load_index()) is Null,
        name == "os"@ ==> binding_after(plan_view(), name, load_index()) is Host,
{
    reveal_strlit("dofile");
    reveal_strlit("loadfile");
    reveal_strlit("load");
    reveal_strlit("require");
    reveal_strlit("io");
    reveal_strlit("os");
    reveal_strlit("debug");
    reveal_strlit("log");
    reveal_strlit("exec");
    reveal_strlit("http");
    reveal_strlit("json");
    reveal_strlit("fs");
    let steps = plan_view();
    let i = choose|i: int| 0 <= i < removed_globals().len() && removed_globals()[i] == name;
    assert(removed_globals()[i] == name);
    reveal_with_fuel(binding_after, 14);
    if i == 0 {
        assert(name == "dofile"@);
        assert(name.len() == 6);
    } else if i == 1 {
        assert(name == "loadfile"@);
        assert(name.len() == 8);
    } else if i == 2 {
        assert(name == "load"@);
        assert(name.len() == 4 && name[0] == 'l' && name[1] == 'o');
    } else if i == 3 {
        assert(name == "require"@);
        assert(name.len() == 7);
    } else if i == 4 {
        assert(name == "io"@);
        assert(name.len() == 2 && name[0] == 'i');
    } else if i == 5 {
        assert(name == "os"@);
    } else {
        assert(name == "debug"@);
        assert(name.len() == 5);
    }
}

/// The directories in which scripts may move and delete files, given
/// what the environment tells: the current directory, the directory for
/// temporary files, and `Documents` in the user's home directory, each
/// where it is known, in this order.
pub open spec fn roots_of(
    current_dir: Option<Seq<char>>,
    temp_dir: Option<Seq<char>>,
    home_dir: Option<Seq<char>>,
) -> Seq<Seq<char>> {
    let first: Seq<Seq<char>> = match current_dir {
        Some(dir) => seq![dir],
        None => Seq::empty(),
    };
    let second: Seq<Seq<char>> = match temp_dir {
        Some(dir) => first.push(dir),
        None => first,
    };
    match home_dir {
        Some(dir) => second.push(path_join(dir, "Documents"@)),
        None => second,
    }
}

/// The view of an optional text slice.
pub open spec fn opt_str(text: Option<&str>) -> Option<Seq<char>> {
    match text {
        Some(t) => Some(t@),
        None => None,
    }
}

/// The directories in which scripts may move and delete files.
pub fn sandbox_roots(current_dir: Option<&str>, temp_dir: Option<&str>, home_dir: Option<&str>) -> (r:
    Vec<String>)
    ensures
        views(r@) == roots_of(opt_str(current_dir), opt_str(temp_dir), opt_str(home_dir)),
{
    let mut roots: Vec<String> = Vec::new();
    if let Some(dir) = current_dir {
        roots.push(String::from_str(dir));
    }
    if let Some(dir) = temp_dir {
        roots.push(String::from_str(dir));
    }
    if let Some(dir) = home_dir {
        roots.push(join_paths(dir, "Documents"));
    }
    assert(views(roots@) =~= roots_of(opt_str(current_dir), opt_str(temp_dir), opt_str(home_dir)));
    roots
}

/// The first `n` components with `.` and `..` resolved: `.` is left out;
/// `..` takes back the name before it, stays at the root where it stands
/// at the root, and is kept where no name stands before it.
pub open spec fn resolved(parts: Seq<(PartKind, Seq<char>)>, n: int) -> Seq<(PartKind, Seq<char>)>
    decreases n,
{
    if n <= 0 || n > parts.len() {
        Seq::empty()
    } else {
        let before = resolved(parts, n - 1);
        let part = parts[n - 1];
        if part.0 == PartKind::Current {
            before
        } else if part.0 == PartKind::Parent && before.len() > 0 && before.last().0
            == PartKind::Normal {
            before.drop_last()
        } else if part.0 == PartKind::Parent && before.len() > 0 && before.last().0
            == PartKind::Root {
            before
        } else {
            before.push(part)
        }
    }
}

/// Whether a separator stands between two neighbouring components: none
/// after a prefix or the root.
pub open spec fn separated(before: PartKind, after: PartKind) -> bool {
    before != PartKind::Prefix && before != PartKind::Root && after != PartKind::Prefix && after
        != PartKind::Root
}

/// The text of the first `n` components, with a slash between names.
pub open spec fn rendered(parts: Seq<(PartKind, Seq<char>)>, n: int) -> Seq<char>
    decreases n,
{
    if n <= 0 || n > parts.len() {
        Seq::empty()
    } else if n >= 2 && separated(parts[n - 2].0, parts[n - 1].0) {
        rendered(parts, n - 1) + "/"@ + parts[n - 1].1
    } else {
        rendered(parts, n - 1) + parts[n - 1].1
    }
}

/// Where a path leads: the path, taken against the current directory
/// where it is relative, with `.` and `..` resolved.
pub open spec fn resolved_path(path: Seq<char>, current_dir: Seq<char>) -> Seq<char> {
    let parts = path_components(path_join(current_dir, path));
    let kept = resolved(parts, parts.len() as int);
    rendered(kept, kept.len() as int)
}

/// Whether a script may move or delete the file at `path`: where the path
/// leads has one of the allowed directories as a leading run of whole
/// components.
pub open spec fn path_allowed(path: Seq<char>, current_dir: Seq<char>, allowed: Seq<String>) -> bool {
    exists|i: int|
        0 <= i < allowed.len() && path_starts_with(
            resolved_path(path, current_dir),
            #[trigger] allowed[i]@,
        )
}

fn resolve(parts: &Vec<PathPart>) -> (r: Vec<PathPart>)
    ensures
        part_views(r@) == resolved(part_views(parts@), parts@.len() as int),
{
    let mut kept: Vec<PathPart> = Vec::new();
    let mut i: usize = 0;
    assert(part_views(kept@) =~= resolved(part_views(parts@), 0));
    while i < parts.len()
        invariant
            i <= parts@.len(),
            part_views(kept@) == resolved(part_views(parts@), i as int),
        decreases parts@.len() - i,
    {
        let ghost before = kept@;
        let part = &parts[i];
        assert(part_views(parts@)[i as int] == (part.kind, part.text@));
        let count = kept.len();
        if count > 0 {
            assert(part_views(before).last() == (before.last().kind, before.last().text@));
        }
        if part.kind == PartKind::Current {
        } else if part.kind == PartKind::Parent && count > 0 && kept[count - 1].kind
            == PartKind::Normal {
            kept.pop();
            assert(part_views(kept@) =~= part_views(before).drop_last());
        } else if part.kind == PartKind::Parent && count > 0 && kept[count - 1].kind
            == PartKind::Root {
        } else {
            kept.push(PathPart { kind: part.kind, text: part.text.clone() });
            assert(part_views(kept@) =~= part_views(before).push((part.kind, part.text@)));
        }
        i = i + 1;
    }
    kept
}

fn render(parts: &Vec<PathPart>) -> (r: String)
    ensures
        r@ == rendered(part_views(parts@), parts@.len() as int),
{
    let mut out = String::new();
    let mut i: usize = 0;
    while i < parts.len()
        invariant
            i <= parts@.len(),
            out@ == rendered(part_views(parts@), i as int),
        decreases parts@.len() - i,
    {
        assert(part_views(parts@)[i as int] == (parts@[i as int].kind, parts@[i as int].text@));
        if i > 0 {
            assert(part_views(parts@)[i - 1] == (parts@[i - 1].kind, parts@[i - 1].text@));
            let before = parts[i - 1].kind;
            let after = parts[i].kind;
            if before != PartKind::Prefix && before != PartKind::Root && after != PartKind::Prefix
                && after != PartKind::Root {
                out.append("/");
            }
        }
        out.append(parts[i].text.as_str());
        i = i + 1;
    }
    out
}

/// Where a path leads: the path, taken against the current directory
/// where it is relative, with `.` and `..` resolved.
pub fn resolve_path(path: &str, current_dir: &str) -> (r: String)
    ensures
        r@ == resolved_path(path@, current_dir@),
{
    let full = join_paths(current_dir, path);
    let parts = components_of(full.as_str());
    let kept = resolve(&parts);
    render(&kept)
}

/// Whether a script may move or delete the file at `path`, given the
/// current directory and the allowed directories.
pub fn is_path_allowed(path: &str, current_dir: &str, allowed: &Vec<String>) -> (r: bool)
    ensures
        r == path_allowed(path@, current_dir@, allowed@),
{
    let target = resolve_path(path, current_dir);
    let mut i: usize = 0;
    while i < allowed.len()
        invariant
            i <= allowed@.len(),
            target@ == resolved_path(path@, current_dir@),
            forall|k: int| 0 <= k < i ==> !path_starts_with(target@, #[trigger] allowed@[k]@),
        decreases allowed@.len() - i,
    {
        if starts_with_path(target.as_str(), allowed[i].as_str()) {
            return true;
        }
        i = i + 1;
    }
    false
}

/// A script and the function in it that is called for each event.
#[derive(Debug, Clone)]
pub struct ScriptAction {
    /// Where the source was read from.
    pub script_path: String,
    /// The name of the function to call.
    pub function_name: String,
    /// The budget of one run, in milliseconds.
    pub timeout_ms: u64,
    /// What to do when the script fails.
    pub on_error: ScriptErrorBehavior,
    /// The source as it was last read.
    pub script_content: String,
    /// The modification time of the source when it was last read.
    pub last_modified: u64,
}

impl ScriptAction {
    /// What making or reloading a script comes to for a given probe: a
    /// configuration error unless the probe found the script valid.
    pub open spec fn probe_error(function_name: Seq<char>, probe: ScriptProbe) -> Option<Seq<char>> {
        match probe {
            ScriptProbe::SyntaxError(why) => Some("Lua syntax error: "@ + why@),
            ScriptProbe::LookupFailed(why) => Some(
                "Function '"@ + function_name + "' not found: "@ + why@,
            ),
            ScriptProbe::NotAFunction => Some("'"@ + function_name + "' is not a function"@),
            ScriptProbe::Valid => None,
        }
    }

    fn check_probe(function_name: &str, probe: &ScriptProbe) -> (r: Result<(), ActionError>)
        ensures
            match Self::probe_error(function_name@, *probe) {
                Some(text) => r matches Err(ActionError::Configuration(m)) && m@ == text,
                None => r is Ok,
            },
    {
        match probe {
            ScriptProbe::SyntaxError(why) => Err(
                ActionError::Configuration(concat2("Lua syntax error: ", why.as_str())),
            ),
            ScriptProbe::LookupFailed(why) => {
                let mut message = concat3("Function '", function_name, "' not found: ");
                message.append(why.as_str());
                Err(ActionError::Configuration(message))
            },
            ScriptProbe::NotAFunction => Err(
                ActionError::Configuration(concat3("'", function_name, "' is not a function")),
            ),
            ScriptProbe::Valid => Ok(()),
        }
    }

    /// A script action for a source that was read and probed: with a
    /// budget of thirty seconds and the policy `Fail` where the probe
    /// found the script valid, else a configuration error that says what
    /// is wrong.
    pub fn new(
        script_path: &str,
        function_name: &str,
        content: String,
        modified: u64,
        probe: &ScriptProbe,
    ) -> (r: Result<Self, ActionError>)
        ensures
            match Self::probe_error(function_name@, *probe) {
                Some(text) => r matches Err(ActionError::Configuration(m)) && m@ == text,
                None => r matches Ok(a) && a.script_path@ == script_path@ && a.function_name@
                    == function_name@ && a.timeout_ms == 30000 && a.on_error
                    == ScriptErrorBehavior::Fail && a.script_content@ == content@
                    && a.last_modified == modified,
            },
    {
        match Self::check_probe(function_name, probe) {
            Err(e) => Err(e),
            Ok(()) => Ok(
                ScriptAction {
                    script_path: String::from_str(script_path),
                    function_name: String::from_str(function_name),
                    timeout_ms: 30000,
                    on_error: ScriptErrorBehavior::Fail,
                    script_content: content,
                    last_modified: modified,
                },
            ),
        }
    }

    /// The same action with another budget.
    pub fn with_timeout(self, timeout_ms: u64) -> (r: Self)
        ensures
            r.script_path == self.script_path,
            r.function_name == self.function_name,
            r.timeout_ms == timeout_ms,
            r.on_error == self.on_error,
            r.script_content@ == self.script_content@,
            r.last_modified == self.last_modified,
    {
        let mut action = self;
        action.timeout_ms = timeout_ms;
        action
    }

    /// The same action with another policy for failures.
    pub fn with_error_behavior(self, behavior: ScriptErrorBehavior) -> (r: Self)
        ensures
            r.script_path == self.script_path,
            r.function_name == self.function_name,
            r.timeout_ms == self.timeout_ms,
            r.on_error == behavior,
            r.script_content@ == self.script_content@,
            r.last_modified == self.last_modified,
    {
        let mut action = self;
        action.on_error = behavior;
        action
    }

    /// The source to load.
    pub fn content(&self) -> (r: &String)
        ensures
            r@ == self.script_content@,
    {
        &self.script_content
    }

    /// Whether the source file is newer than what the action holds.
    /// `current` is the modification time of the file now, where it could
    /// be read.
    pub fn needs_reload(&self, current: Option<u64>) -> (r: bool)
        ensures
            r == (current matches Some(t) && t > self.last_modified),
    {
        match current {
            Some(t) => t > self.last_modified,
            None => false,
        }
    }

    /// Takes over a newly read source. Where the probe found it valid the
    /// action holds the new source; its modification time is replaced
    /// where one was read. Else the action is unchanged and the result is
    /// a configuration error.
    pub fn reload(&mut self, content: String, modified: Option<u64>, probe: &ScriptProbe) -> (r:
        Result<(), ActionError>)
        ensures
            final(self).script_path == old(self).script_path,
            final(self).function_name == old(self).function_name,
            final(self).timeout_ms == old(self).timeout_ms,
            final(self).on_error == old(self).on_error,
            match Self::probe_error(old(self).function_name@, *probe) {
                Some(text) => {
                    &&& r matches Err(ActionError::Configuration(m)) && m@ == text
                    &&& final(self).script_content@ == old(self).script_content@
                    &&& final(self).last_modified == old(self).last_modified
                },
                None => {
                    &&& r is Ok
                    &&& final(self).script_content@ == content@
                    &&& final(self).last_modified == (match modified {
                        Some(t) => t,
                        None => old(self).last_modified,
                    })
                },
            },
    {
        match Self::check_probe(self.function_name.as_str(), probe) {
            Err(e) => Err(e),
            Ok(()) => {
                self.script_content = content;
                if let Some(t) = modified {
                    self.last_modified = t;
                }
                Ok(())
            },
        }
    }

    /// What a run of the script amounts to. A returned table tells
    /// success unless its field `success` is false; its field `message`
    /// is the message, empty where there is none.
    pub open spec fn verdict(&self, outcome: ScriptOutcome, r: Outcome) -> bool {
        match outcome {
            ScriptOutcome::SetupFailed(why) => r matches Err(ActionError::Execution(m)) && m@
                == "Lua error: "@ + why@,
            ScriptOutcome::LoadFailed(why) => r matches Err(ActionError::Execution(m)) && m@
                == "Failed to load script: "@ + why@,
            ScriptOutcome::FunctionMissing(why) => r matches Err(ActionError::Execution(m)) && m@
                == "Function not found: "@ + why@,
            ScriptOutcome::Raised(why) => {
                let text = "Lua execution error: "@ + why@;
                if self.on_error == ScriptErrorBehavior::Fail {
                    r matches Err(ActionError::Execution(m)) && m@ == text
                } else {
                    r matches Ok(ActionResult::Success { message: Some(m) }) && m@
                        == "Error but continuing: "@ + text
                }
            },
            ScriptOutcome::Returned { success, message } => {
                let text = match message {
                    Some(m) => m@,
                    None => Seq::<char>::empty(),
                };
                if success != Some(false) {
                    if text.len() == 0 {
                        r matches Ok(ActionResult::Success { message: None })
                    } else {
                        r matches Ok(ActionResult::Success { message: Some(m) }) && m@ == text
                    }
                } else if self.on_error == ScriptErrorBehavior::Fail {
                    r matches Err(ActionError::Execution(m)) && m@ == "Script returned failure: "@
                        + text
                } else {
                    r matches Ok(ActionResult::Success { message: Some(m) }) && m@
                        == "Failed but continuing: "@ + text
                }
            },
        }
    }

    /// What a run of the script amounts to, by the action's policy.
    pub fn conclude(&self, outcome: &ScriptOutcome) -> (r: Outcome)
        ensures
            self.verdict(*outcome, r),
    {
        match outcome {
            ScriptOutcome::SetupFailed(why) => Err(
                ActionError::Execution(concat2("Lua error: ", why.as_str())),
            ),
            ScriptOutcome::LoadFailed(why) => Err(
                ActionError::Execution(concat2("Failed to load script: ", why.as_str())),
            ),
            ScriptOutcome::FunctionMissing(why) => Err(
                ActionError::Execution(concat2("Function not found: ", why.as_str())),
            ),
            ScriptOutcome::Raised(why) => {
                let text = concat2("Lua execution error: ", why.as_str());
                match self.on_error {
                    ScriptErrorBehavior::Fail => Err(ActionError::Execution(text)),
                    _ => Ok(
                        ActionResult::Success {
                            message: Some(concat2("Error but continuing: ", text.as_str())),
                        },
                    ),
                }
            },
            ScriptOutcome::Returned { success, message } => {
                let text = match message {
                    Some(m) => m.clone(),
                    None => String::new(),
                };
                let failed = match success {
                    Some(s) => !*s,
                    None => false,
                };
                if !failed {
                    if text.as_str().unicode_len() == 0 {
                        Ok(ActionResult::Success { message: None })
                    } else {
                        Ok(ActionResult::Success { message: Some(text) })
                    }
                } else {
                    match self.on_error {
                        ScriptErrorBehavior::Fail => Err(
                            ActionError::Execution(
                                concat2("Script returned failure: ", text.as_str()),
                            ),
                        ),
                        _ => Ok(
                            ActionResult::Success {
                                message: Some(concat2("Failed but continuing: ", text.as_str())),
                            },
                        ),
                    }
                }
            },
        }
    }

    /// A short text that says what the action does.
    pub fn description(&self) -> (r: String)
        ensures
            r@ == "Lua script: "@ + self.script_path@ + "::"@ + self.function_name@,
    {
        let mut out = concat3("Lua script: ", self.script_path.as_str(), "::");
        out.append(self.function_name.as_str());
        out
    }
}

/// The fields of the table that a script gets for an event, as far as they
/// are text of the event itself: the name of its kind, its source and its
/// metadata.
pub struct EventTable {
    pub kind: String,
    pub source: String,
    pub metadata: Vec<(String, String)>,
}

/// The table fields for an event.
pub fn event_table(event: &Event) -> (r: EventTable)
    ensures
        r.kind@ == event.kind.spec_name(),
        r.source@ == event.source@,
        crate::event::keys_unique(r.metadata@),
        crate::event::entries_map(r.metadata@) == event.metadata@,
{
    let entries = event.metadata.entries();
    let mut metadata: Vec<(String, String)> = Vec::new();
    let mut i: usize = 0;
    while i < entries.len()
        invariant
            i <= entries@.len(),
            metadata@ == entries@.subrange(0, i as int),
        decreases entries@.len() - i,
    {
        metadata.push((entries[i].0.clone(), entries[i].1.clone()));
        i = i + 1;
        assert(metadata@ =~= entries@.subrange(0, i as int));
    }
    assert(metadata@ =~= entries@);
    EventTable { kind: event.kind.name(), source: event.source.clone(), metadata }
}

/// What the caller reports back after it has carried out a step.
#[derive(Debug, Clone)]
pub enum Feedback {
    /// Nothing has been done yet: the run begins.
    Start,
    /// The step succeeded.
    Done,
    /// The step failed; the text is the interpreter's message.
    Failed(String),
    /// The entry function to call was not found.
    Missing(String),
    /// The entry function returned; see `ScriptOutcome::Returned`.
    Returned { success: Option<bool>, message: Option<String> },
}

/// What the caller has to do next.
#[derive(Debug)]
pub enum Answer {
    /// Carry out this step and report back.
    Do(SandboxStep),
    /// The run is over with this outcome.
    Finish(Outcome),
}

/// A run of a script: how many steps of the plan were handed out, and
/// whether the run is over.
#[derive(Debug, Clone, Copy, PartialEq, Eq, Structural)]
pub struct ScriptRun {
    pub position: usize,
    pub finished: bool,
}

/// The number of steps of the plan.
pub open spec fn plan_length() -> int {
    15
}

/// How a run goes on: the state after a feedback, and the outcome that
/// ends the run where it ends. A step is handed out only after the step
/// before it succeeded; a failed step ends the run. Feedback that does
/// not fit the state ends the run as out of order.
pub open spec fn run_after(run: ScriptRun, feedback: Feedback) -> (ScriptRun, Option<ScriptOutcome>) {
    let over = ScriptRun { position: run.position, finished: true };
    let out_of_order = (over, None::<ScriptOutcome>);
    if run.finished {
        out_of_order
    } else {
        match feedback {
            Feedback::Start => if run.position == 0 {
                (ScriptRun { position: 1, finished: false }, None)
            } else {
                out_of_order
            },
            Feedback::Done => if 1 <= run.position < plan_length() {
                (ScriptRun { position: (run.position + 1) as usize, finished: false }, None)
            } else {
                out_of_order
            },
            Feedback::Failed(why) => if 1 <= run.position <= plan_length() {
                let failed = plan_view()[run.position - 1].0;
                if failed == 2 {
                    (over, Some(ScriptOutcome::LoadFailed(why)))
                } else if failed == 3 {
                    (over, Some(ScriptOutcome::Raised(why)))
                } else {
                    (over, Some(ScriptOutcome::SetupFailed(why)))
                }
            } else {
                out_of_order
            },
            Feedback::Missing(why) => if run.position == plan_length() {
                (over, Some(ScriptOutcome::FunctionMissing(why)))
            } else {
                out_of_order
            },
            Feedback::Returned { success, message } => if run.position == plan_length() {
                (over, Some(ScriptOutcome::Returned { success, message }))
            } else {
                out_of_order
            },
        }
    }
}

/// Whether `answer` is what the library answers to a feedback in a state:
/// the next step of the plan while the run goes on; at its end what the
/// script's outcome amounts to under the action's policy; for feedback
/// out of order an execution error.
pub open spec fn is_answer(
    action: &ScriptAction,
    run: ScriptRun,
    feedback: Feedback,
    answer: Answer,
) -> bool {
    let (next, outcome) = run_after(run, feedback);
    if !next.finished {
        answer matches Answer::Do(step) && step_view(step) == plan_view()[next.position - 1]
    } else {
        match outcome {
            Some(o) => answer matches Answer::Finish(r) && action.verdict(o, r),
            None => answer matches Answer::Finish(Err(ActionError::Execution(m))) && m@
                == "Script steps out of order"@,
        }
    }
}

impl ScriptRun {
    /// A run that has not begun.
    pub fn begin() -> (r: Self)
        ensures
            r.position == 0,
            !r.finished,
    {
        ScriptRun { position: 0, finished: false }
    }

    fn out_of_order(&mut self) -> (r: Answer)
        ensures
            final(self).position == old(self).position,
            final(self).finished,
            r matches Answer::Finish(Err(ActionError::Execution(m))) && m@
                == "Script steps out of order"@,
    {
        self.finished = true;
        Answer::Finish(Err(ActionError::Execution(String::from_str("Script steps out of order"))))
    }

    fn hand_out(&mut self) -> (r: Answer)
        requires
            old(self).position < plan_length(),
            !old(self).finished,
        ensures
            final(self).position == old(self).position + 1,
            !final(self).finished,
            r matches Answer::Do(step) && step_view(step) == plan_view()[old(self).position as int],
    {
        let plan = sandbox_plan();
        assert(plan@.map_values(|s: SandboxStep| step_view(s)).len() == plan@.len());
        assert(plan_view().len() == 15);
        assert(plan@.map_values(|s: SandboxStep| step_view(s))[self.position as int] == step_view(
            plan@[self.position as int],
        ));
        let step = copy_step(&plan[self.position]);
        self.position = self.position + 1;
        Answer::Do(step)
    }

    /// Takes the feedback on the step handed out last and says how the run
    /// goes on.
    pub fn advance(&mut self, action: &ScriptAction, feedback: &Feedback) -> (r: Answer)
        ensures
            *final(self) == run_after(*old(self), *feedback).0,
            is_answer(action, *old(self), *feedback, r),
    {
        if self.finished {
            return self.out_of_order();
        }
        match feedback {
            Feedback::Start => {
                if self.position == 0 {
                    self.hand_out()
                } else {
                    self.out_of_order()
                }
            },
            Feedback::Done => {
                if 1 <= self.position && self.position < 15 {
                    self.hand_out()
                } else {
                    self.out_of_order()
                }
            },
            Feedback::Failed(why) => {
                if 1 <= self.position && self.position <= 15 {
                    let outcome = if self.position == 14 {
                        ScriptOutcome::LoadFailed(why.clone())
                    } else if self.position == 15 {
                        ScriptOutcome::Raised(why.clone())
                    } else {
                        ScriptOutcome::SetupFailed(why.clone())
                    };
                    self.finished = true;
                    Answer::Finish(action.conclude(&outcome))
                } else {
                    self.out_of_order()
                }
            },
            Feedback::Missing(why) => {
                if self.position == 15 {
                    self.finished = true;
                    Answer::Finish(action.conclude(&ScriptOutcome::FunctionMissing(why.clone())))
                } else {
                    self.out_of_order()
                }
            },
            Feedback::Returned { success, message } => {
                if self.position == 15 {
                    let copy = match message {
                        Some(m) => Some(m.clone()),
                        None => None,
                    };
                    self.finished = true;
                    Answer::Finish(
                        action.conclude(
                            &ScriptOutcome::Returned { success: *success, message: copy },
                        ),
                    )
                } else {
                    self.out_of_order()
                }
            },
        }
    }
}

fn copy_step(step: &SandboxStep) -> (r: SandboxStep)
    ensures
        r == *step,
{
    match step {
        SandboxStep::Clear(name) => SandboxStep::Clear(name.clone()),
        SandboxStep::Install(name) => SandboxStep::Install(name.clone()),
        SandboxStep::Load => SandboxStep::Load,
        SandboxStep::Call => SandboxStep::Call,
    }
}

/// The state of a run after the first `n` of the feedbacks, from its
/// beginning.
pub open spec fn state_after(feedbacks: Seq<Feedback>, n: int) -> ScriptRun
    decreases n,
{
    if n <= 0 || n > feedbacks.len() {
        ScriptRun { position: 0, finished: false }
    } else {
        run_after(state_after(feedbacks, n - 1), feedbacks[n - 1]).0
    }
}

/// A run that is not over after `n` feedbacks has handed out `n` steps,
/// and every feedback but the first told of a step that succeeded. So the
/// step that loads the user's script is handed out only after each step
/// before it, the clearing of every removed global and the installing of
/// the host's globals, was carried out with success.
pub proof fn lemma_steps_in_order(feedbacks: Seq<Feedback>, n: int)
    requires
        0 <= n <= feedbacks.len(),
        !state_after(feedbacks, n).finished,
    ensures
        state_after(feedbacks, n).position == n,
        n <= plan_length(),
        n > 0 ==> feedbacks[0] is Start,
        forall|k: int| 1 <= k < n ==> #[trigger] feedbacks[k] is Done,
    decreases n,
{
    if n > 0 {
        let before = state_after(feedbacks, n - 1);
        lemma_steps_in_order(feedbacks, n - 1);
    }
}

} // verus!
