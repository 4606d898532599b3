//! The file watcher: which changes it reports, and as which events.

use crate::event::{Event, EventKind};
use crate::pattern::{glob_check, glob_compiles, glob_match, glob_matches};
use crate::plugin::{Lifecycle, PluginError, StartDecision};
use crate::text::{file_name_of, path_file_name};
use vstd::prelude::*;
use vstd::string::*;

verus! {

/// What happened to the files of a change notice.
#[derive(Debug, Clone, Copy, PartialEq, Eq, Structural)]
pub enum ChangeKind {
    Create,
    Modify,
    Remove,
    /// Anything else: an access, a change the watcher cannot name.
    Other,
}

/// A change notice: one kind, and the paths it is about.
#[derive(Debug, Clone)]
pub struct FileChange {
    pub kind: ChangeKind,
    pub paths: Vec<String>,
}

/// The file watcher as it is configured.
#[derive(Debug, Clone)]
pub struct FileWatcherPlugin {
    pub name: String,
    pub paths: Vec<String>,
    pub pattern: Option<String>,
    pub recursive: bool,
    pub state: Lifecycle,
}

/// Whether `kind` reports the change `change` of the file at `path`.
pub open spec fn is_file_event(kind: EventKind, change: ChangeKind, path: Seq<char>) -> bool {
    match change {
        ChangeKind::Create => kind matches EventKind::FileCreated { path: p } && p@ == path,
        ChangeKind::Modify => kind matches EventKind::FileModified { path: p } && p@ == path,
        ChangeKind::Remove => kind matches EventKind::FileDeleted { path: p } && p@ == path,
        ChangeKind::Other => false,
    }
}

/// The metadata of a file event: the path under `watcher_path`.
pub open spec fn path_metadata(path: Seq<char>) -> Map<Seq<char>, Seq<char>> {
    Map::<Seq<char>, Seq<char>>::empty().insert("watcher_path"@, path)
}

impl FileWatcherPlugin {
    /// A stopped watcher for the paths, recursive and without a glob.
    pub fn new(name: &str, paths: Vec<String>) -> (r: Self)
        ensures
            r.name@ == name@,
            r.paths == paths,
            r.pattern is None,
            r.recursive,
            !r.state.spec_is_running(),
    {
        FileWatcherPlugin {
            name: String::from_str(name),
            paths,
            pattern: None,
            recursive: true,
            state: Lifecycle::Stopped,
        }
    }

    /// The same watcher with a glob for the file name.
    pub fn with_pattern(self, pattern: &str) -> (r: Self)
        ensures
            r.name == self.name,
            r.paths == self.paths,
            r.pattern is Some,
            r.pattern->0@ == pattern@,
            r.recursive == self.recursive,
            r.state == self.state,
    {
        let mut plugin = self;
        plugin.pattern = Some(String::from_str(pattern));
        plugin
    }

    /// The same watcher, watching the trees below its paths or not.
    pub fn with_recursive(self, recursive: bool) -> (r: Self)
        ensures
            r.name == self.name,
            r.paths == self.paths,
            r.pattern == self.pattern,
            r.recursive == recursive,
            r.state == self.state,
    {
        let mut plugin = self;
        plugin.recursive = recursive;
        plugin
    }

    /// Whether a change of the file at `path` is reported: there is no
    /// glob, or the path has a final component and the glob matches it. A
    /// glob that does not compile holds no file back.
    pub open spec fn spec_should_emit(&self, path: Seq<char>) -> bool {
        match self.pattern {
            None => true,
            Some(pattern) => path_file_name(path) matches Some(name) && (!glob_compiles(pattern@)
                || glob_matches(pattern@, name)),
        }
    }

    /// Whether a change of the file at `path` is reported.
    pub fn should_emit_event(&self, path: &str) -> (r: bool)
        ensures
            r == self.spec_should_emit(path@),
    {
        match &self.pattern {
            None => true,
            Some(pattern) => match file_name_of(path) {
                Some(name) => {
                    if glob_check(pattern.as_str()).is_ok() {
                        glob_match(pattern.as_str(), name.as_str())
                    } else {
                        true
                    }
                },
                None => false,
            },
        }
    }

    /// The paths of a notice that are reported, in order: none for a
    /// notice of another kind than create, modify or remove.
    pub open spec fn reported_paths(&self, change: FileChange) -> Seq<String> {
        if change.kind == ChangeKind::Other {
            Seq::empty()
        } else {
            change.paths@.filter(|p: String| self.spec_should_emit(p@))
        }
    }

    /// The events for a change notice: one for each reported path, in
    /// order, of the notice's kind and with the path as metadata.
    pub fn convert_notify_event(&self, change: &FileChange) -> (r: Vec<Event>)
        ensures
            r@.len() == self.reported_paths(*change).len(),
            forall|i: int|
                0 <= i < r@.len() ==> {
                    let path = self.reported_paths(*change)[i]@;
                    &&& (#[trigger] r@[i]).source@ == self.name@
                    &&& is_file_event(r@[i].kind, change.kind, path)
                    &&& r@[i].metadata@ == path_metadata(path)
                },
    {
        let mut events: Vec<Event> = Vec::new();
        if change.kind == ChangeKind::Other {
            return events;
        }
        let ghost pred = |p: String| self.spec_should_emit(p@);
        let mut i: usize = 0;
        proof {
            assert(change.paths@.take(0) =~= Seq::<String>::empty());
        }
        while i < change.paths.len()
            invariant
                i <= change.paths@.len(),
                change.kind != ChangeKind::Other,
                pred == (|p: String| self.spec_should_emit(p@)),
                events@.len() == change.paths@.take(i as int).filter(pred).len(),
                forall|k: int|
                    0 <= k < events@.len() ==> {
                        let path = change.paths@.take(i as int).filter(pred)[k]@;
                        &&& (#[trigger] events@[k]).source@ == self.name@
                        &&& is_file_event(events@[k].kind, change.kind, path)
                        &&& events@[k].metadata@ == path_metadata(path)
                    },
            decreases change.paths@.len() - i,
        {
            let path = &change.paths[i];
            proof {
                assert(change.paths@.take(i + 1) =~= change.paths@.take(i as int).push(*path));
                change.paths@.take(i as int).lemma_filter_push(*path, pred);
            }
            if self.should_emit_event(path.as_str()) {
                let kind = match change.kind {
                    ChangeKind::Create => EventKind::FileCreated { path: path.clone() },
                    ChangeKind::Modify => EventKind::FileModified { path: path.clone() },
                    _ => EventKind::FileDeleted { path: path.clone() },
                };
                let event = Event::new(kind, self.name.as_str()).with_metadata(
                    "watcher_path",
                    path.as_str(),
                );
                events.push(event);
            }
            i = i + 1;
        }
        assert(change.paths@.take(change.paths@.len() as int) =~= change.paths@);
        events
    }

    /// Whether the watcher runs.
    pub fn is_running(&self) -> (r: bool)
        ensures
            r == self.state.spec_is_running(),
    {
        self.state.is_running()
    }

    /// What `start` has to do: nothing where the watcher runs already; a
    /// launch where it is stopped, has a path to watch and its glob, if
    /// any, compiles; else a configuration error.
    pub fn start_decision(&self) -> (r: Result<StartDecision, PluginError>)
        ensures
            self.state.spec_is_running() ==> r == Ok::<StartDecision, PluginError>(
                StartDecision::AlreadyRunning,
            ),
            !self.state.spec_is_running() ==> {
                if self.paths@.len() == 0 {
                    r matches Err(PluginError::Configuration(m)) && m@
                        == "No paths specified for file watcher"@
                } else if self.pattern matches Some(p) && !glob_compiles(p@) {
                    r matches Err(PluginError::Configuration(m)) && m@ == "Invalid file pattern: "@
                        + self.pattern->0@
                } else {
                    r == Ok::<StartDecision, PluginError>(StartDecision::Launch)
                }
            },
    {
        if self.state.is_running() {
            return Ok(StartDecision::AlreadyRunning);
        }
        if self.paths.len() == 0 {
            return Err(
                PluginError::Configuration(String::from_str("No paths specified for file watcher")),
            );
        }
        if let Some(pattern) = &self.pattern {
            if glob_check(pattern.as_str()).is_err() {
                return Err(
                    PluginError::Configuration(
                        crate::text::concat2("Invalid file pattern: ", pattern.as_str()),
                    ),
                );
            }
        }
        Ok(StartDecision::Launch)
    }

    /// The paths to put a watch on: those that exist. `exists` tells of
    /// each path whether it does; a path without an entry counts as
    /// missing.
    pub fn paths_to_watch(&self, exists: &Vec<bool>) -> (r: Vec<String>)
        ensures
            r@.map_values(|s: String| s@) == self.spec_paths_to_watch(exists@, self.paths@.len() as int),
    {
        let mut out: Vec<String> = Vec::new();
        let mut i: usize = 0;
        while i < self.paths.len()
            invariant
                i <= self.paths@.len(),
                out@.map_values(|s: String| s@) == self.spec_paths_to_watch(exists@, i as int),
            decreases self.paths@.len() - i,
        {
            let ghost before = out@.map_values(|s: String| s@);
            if i < exists.len() && exists[i] {
                out.push(self.paths[i].clone());
                assert(out@.map_values(|s: String| s@) =~= before.push(self.paths@[i as int]@));
            }
            i = i + 1;
        }
        out
    }

    /// The first `n` paths that exist, in order.
    pub open spec fn spec_paths_to_watch(&self, exists: Seq<bool>, n: int) -> Seq<Seq<char>>
        decreases n,
    {
        if n <= 0 || n > self.paths@.len() {
            Seq::empty()
        } else if n - 1 < exists.len() && exists[n - 1] {
            self.spec_paths_to_watch(exists, n - 1).push(self.paths@[n - 1]@)
        } else {
            self.spec_paths_to_watch(exists, n - 1)
        }
    }

    /// Takes note of how the launch went: the watcher runs where the
    /// watches were set, else it stays stopped.
    pub fn finish_start(&mut self, launched: bool)
        ensures
            final(self).name == old(self).name,
            final(self).paths == old(self).paths,
            final(self).pattern == old(self).pattern,
            final(self).recursive == old(self).recursive,
            final(self).state.spec_is_running() == launched,
    {
        if launched {
            self.state = Lifecycle::Running;
        } else {
            self.state = Lifecycle::Stopped;
        }
    }

    /// Stops the watcher; safe in every state.
    pub fn stop(&mut self)
        ensures
            !final(self).state.spec_is_running(),
            final(self).name == old(self).name,
            final(self).paths == old(self).paths,
            final(self).pattern == old(self).pattern,
            final(self).recursive == old(self).recursive,
    {
        self.state = Lifecycle::Stopped;
    }
}

} // verus!
