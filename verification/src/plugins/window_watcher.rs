//! The window observer: which window events pass the filters, and which
//! events they become. A change of focus reports the loss of focus of the
//! window that had it before.

use crate::event::{Event, EventKind};
use crate::pattern::{regex_accepts, regex_check, regex_compiles, regex_match};
use crate::plugin::{Lifecycle, PluginError, StartDecision};
use crate::text::{chars_of, concat2, decimal, opt_text, string_of, u64_to_string};
use vstd::prelude::*;
use vstd::string::*;

verus! {

/// What the hook thread reports.
#[derive(Debug, Clone)]
pub enum WindowEvent {
    Focused { hwnd: isize, title: String, process_name: String, process_id: u32 },
    Created { hwnd: isize, title: String, process_name: String, process_id: u32 },
    Destroyed { hwnd: isize, title: Option<String> },
}

/// The part of a path after its last backslash; the whole path where it
/// has none.
pub open spec fn after_last_backslash(path: Seq<char>) -> Seq<char>
    decreases path.len(),
{
    if path.len() == 0 {
        Seq::empty()
    } else if path.last() == '\\' {
        Seq::empty()
    } else {
        after_last_backslash(path.drop_last()).push(path.last())
    }
}

fn last_component(path: &str) -> (r: String)
    ensures
        r@ == after_last_backslash(path@),
{
    let chars = chars_of(path);
    let mut start: usize = chars.len();
    proof {
        assert(chars@.take(chars@.len() as int) =~= chars@);
        assert(chars@.skip(chars@.len() as int) =~= Seq::<char>::empty());
        assert(after_last_backslash(chars@) + Seq::<char>::empty() =~= after_last_backslash(
            chars@,
        ));
    }
    while start > 0 && chars[start - 1] != '\\'
        invariant
            start <= chars@.len(),
            after_last_backslash(chars@) == after_last_backslash(chars@.take(start as int))
                + chars@.skip(start as int),
        decreases start,
    {
        proof {
            let head = chars@.take(start as int);
            assert(head.last() == chars@[start - 1]);
            assert(head.drop_last() =~= chars@.take(start - 1));
            assert(after_last_backslash(head) == after_last_backslash(head.drop_last()).push(
                head.last(),
            ));
            assert(after_last_backslash(chars@.take(start - 1)).push(chars@[start - 1])
                + chars@.skip(start as int) =~= after_last_backslash(chars@.take(start - 1))
                + chars@.skip(start - 1));
        }
        start = start - 1;
    }
    proof {
        let head = chars@.take(start as int);
        if start > 0 {
            assert(head.last() == '\\');
        }
        assert(after_last_backslash(head) =~= Seq::<char>::empty());
        assert(Seq::<char>::empty() + chars@.skip(start as int) =~= chars@.skip(start as int));
    }
    let mut out: Vec<char> = Vec::new();
    let mut i: usize = start;
    while i < chars.len()
        invariant
            start <= i <= chars@.len(),
            out@ == chars@.subrange(start as int, i as int),
        decreases chars@.len() - i,
    {
        out.push(chars[i]);
        i = i + 1;
        assert(out@ =~= chars@.subrange(start as int, i as int));
    }
    assert(out@ =~= chars@.skip(start as int));
    string_of(&out)
}

/// The name of the process that owns a window, given what looking up its
/// image path came to: empty for process 0; the final component of the
/// path where there is one; else `PID:` and the number.
pub open spec fn process_name_text(pid: u32, image_path: Option<Seq<char>>) -> Seq<char> {
    if pid == 0 {
        Seq::empty()
    } else {
        match image_path {
            Some(path) => after_last_backslash(path),
            None => "PID:"@ + decimal(pid as nat),
        }
    }
}

/// The name of the process that owns a window.
pub fn resolve_process_name(pid: u32, image_path: Option<&str>) -> (r: String)
    ensures
        r@ == process_name_text(
            pid,
            match image_path {
                Some(p) => Some(p@),
                None => None,
            },
        ),
{
    if pid == 0 {
        return String::new();
    }
    match image_path {
        Some(path) => last_component(path),
        None => {
            let digits = u64_to_string(pid as u64);
            concat2("PID:", digits.as_str())
        },
    }
}

/// The window observer as it is configured, with the window that had the
/// focus last.
#[derive(Debug, Clone)]
pub struct WindowEventPlugin {
    pub name: String,
    pub title_filter: Option<String>,
    pub process_filter: Option<String>,
    pub previous_hwnd: Option<isize>,
    pub state: Lifecycle,
}

/// Whether `kind` is a loss of focus of the window with the title.
pub open spec fn is_unfocus(kind: EventKind, hwnd: isize, title: Seq<char>) -> bool {
    kind matches EventKind::WindowUnfocused { hwnd: h, title: t } && h == hwnd && t@ == title
}

/// Whether `kind` is a gain of focus of the window with the title.
pub open spec fn is_focus(kind: EventKind, hwnd: isize, title: Seq<char>) -> bool {
    kind matches EventKind::WindowFocused { hwnd: h, title: t } && h == hwnd && t@ == title
}

/// The metadata of a window event that only carries the title.
pub open spec fn title_metadata(title: Seq<char>) -> Map<Seq<char>, Seq<char>> {
    Map::<Seq<char>, Seq<char>>::empty().insert("window_title"@, title)
}

impl WindowEventPlugin {
    /// A stopped observer without filters.
    pub fn new(name: &str) -> (r: Self)
        ensures
            r.name@ == name@,
            r.title_filter is None,
            r.process_filter is None,
            r.previous_hwnd is None,
            !r.state.spec_is_running(),
    {
        WindowEventPlugin {
            name: String::from_str(name),
            title_filter: None,
            process_filter: None,
            previous_hwnd: None,
            state: Lifecycle::Stopped,
        }
    }

    /// The same observer with a regular expression for the title. A text
    /// that is no regular expression is ignored.
    pub fn with_title_filter(self, pattern: &str) -> (r: Self)
        ensures
            r.name == self.name,
            r.process_filter == self.process_filter,
            r.previous_hwnd == self.previous_hwnd,
            r.state == self.state,
            regex_compiles(pattern@) ==> opt_text(r.title_filter) == Some(pattern@),
            !regex_compiles(pattern@) ==> r.title_filter == self.title_filter,
    {
        let mut plugin = self;
        if regex_check(pattern) {
            plugin.title_filter = Some(String::from_str(pattern));
        }
        plugin
    }

    /// The same observer with a regular expression for the process name.
    /// A text that is no regular expression is ignored.
    pub fn with_process_filter(self, pattern: &str) -> (r: Self)
        ensures
            r.name == self.name,
            r.title_filter == self.title_filter,
            r.previous_hwnd == self.previous_hwnd,
            r.state == self.state,
            regex_compiles(pattern@) ==> opt_text(r.process_filter) == Some(pattern@),
            !regex_compiles(pattern@) ==> r.process_filter == self.process_filter,
    {
        let mut plugin = self;
        if regex_check(pattern) {
            plugin.process_filter = Some(String::from_str(pattern));
        }
        plugin
    }

    /// Whether a window passes both filters: each filter that is set
    /// matches, the one for the title and the one for the process name.
    pub open spec fn spec_passes(&self, title: Seq<char>, process_name: Seq<char>) -> bool {
        &&& self.title_filter matches Some(f) ==> regex_accepts(f@, title)
        &&& self.process_filter matches Some(f) ==> regex_accepts(f@, process_name)
    }

    /// Whether a window passes both filters.
    pub fn passes_filters(&self, title: &str, process_name: &str) -> (r: bool)
        ensures
            r == self.spec_passes(title@, process_name@),
    {
        if let Some(filter) = &self.title_filter {
            if !regex_match(filter.as_str(), title) {
                return false;
            }
        }
        if let Some(filter) = &self.process_filter {
            if !regex_match(filter.as_str(), process_name) {
                return false;
            }
        }
        true
    }

    /// The window to look up before a focus report is handled: the one
    /// that had the focus last, where it is another than the one that has
    /// it now.
    pub fn window_losing_focus(&self, hwnd: isize) -> (r: Option<isize>)
        ensures
            r == (match self.previous_hwnd {
                Some(p) => if p != hwnd {
                    Some(p)
                } else {
                    None
                },
                None => None,
            }),
    {
        match self.previous_hwnd {
            Some(p) => if p != hwnd {
                Some(p)
            } else {
                None
            },
            None => None,
        }
    }

    /// The events for a focus report. A window that fails a filter gives
    /// none and leaves the state alone. Else the window that had the focus
    /// before, where it is another one, is reported as unfocused first,
    /// under `previous_title`, the title that was found for it, or under
    /// the empty title where none was found; then the new window is
    /// reported as focused and remembered.
    pub fn on_focus(
        &mut self,
        hwnd: isize,
        title: &str,
        process_name: &str,
        process_id: u32,
        previous_title: Option<&str>,
    ) -> (r: Vec<Event>)
        ensures
            final(self).name == old(self).name,
            final(self).title_filter == old(self).title_filter,
            final(self).process_filter == old(self).process_filter,
            final(self).state == old(self).state,
            !old(self).spec_passes(title@, process_name@) ==> r@.len() == 0 && final(self).previous_hwnd == old(self).previous_hwnd,
            old(self).spec_passes(title@, process_name@) ==> {
                &&& final(self).previous_hwnd == Some(hwnd)
                &&& r@.len() > 0
                &&& forall|i: int| 0 <= i < r@.len() ==> (#[trigger] r@[i]).source@ == old(self).name@
                &&& is_focus(r@.last().kind, hwnd, title@)
                &&& r@.last().metadata@ == title_metadata(title@).insert(
                    "process_id"@,
                    decimal(process_id as nat),
                ).insert("process_name"@, process_name@)
                &&& match old(self).previous_hwnd {
                    Some(p) => if p != hwnd {
                        let previous = match previous_title {
                            Some(t) => t@,
                            None => Seq::<char>::empty(),
                        };
                        r@.len() == 2 && is_unfocus(r@[0].kind, p, previous) && r@[0].metadata@
                            == title_metadata(previous)
                    } else {
                        r@.len() == 1
                    },
                    None => r@.len() == 1,
                }
            },
    {
        let mut events: Vec<Event> = Vec::new();
        if !self.passes_filters(title, process_name) {
            return events;
        }
        if let Some(previous) = self.window_losing_focus(hwnd) {
            let old_title = match previous_title {
                Some(t) => String::from_str(t),
                None => String::new(),
            };
            let kind = EventKind::WindowUnfocused { hwnd: previous, title: old_title.clone() };
            events.push(
                Event::new(kind, self.name.as_str()).with_metadata(
                    "window_title",
                    old_title.as_str(),
                ),
            );
        }
        let kind = EventKind::WindowFocused { hwnd, title: String::from_str(title) };
        let pid = u64_to_string(process_id as u64);
        events.push(
            Event::new(kind, self.name.as_str()).with_metadata("window_title", title).with_metadata(
                "process_id",
                pid.as_str(),
            ).with_metadata("process_name", process_name),
        );
        self.previous_hwnd = Some(hwnd);
        events
    }

    /// The event for a new window: none where it fails a filter.
    pub fn on_created(&self, hwnd: isize, title: &str, process_name: &str, process_id: u32) -> (r:
        Option<Event>)
        ensures
            r is Some <==> self.spec_passes(title@, process_name@),
            r matches Some(e) ==> {
                &&& e.source@ == self.name@
                &&& e.kind matches EventKind::WindowCreated { hwnd: h, title: t, process_id: p }
                &&& h == hwnd
                &&& t@ == title@
                &&& p == process_id
                &&& e.metadata@ == title_metadata(title@).insert("process_name"@, process_name@)
            },
    {
        if !self.passes_filters(title, process_name) {
            return None;
        }
        let kind = EventKind::WindowCreated { hwnd, title: String::from_str(title), process_id };
        Some(
            Event::new(kind, self.name.as_str()).with_metadata("window_title", title).with_metadata(
                "process_name",
                process_name,
            ),
        )
    }

    /// The event for a window that is gone; it carries the title where one
    /// was found. No filter applies.
    pub fn on_destroyed(&self, hwnd: isize, title: Option<&str>) -> (r: Event)
        ensures
            r.source@ == self.name@,
            r.kind matches EventKind::WindowDestroyed { hwnd: h } && h == hwnd,
            r.metadata@ == (match title {
                Some(t) => title_metadata(t@),
                None => Map::<Seq<char>, Seq<char>>::empty(),
            }),
    {
        let event = Event::new(EventKind::WindowDestroyed { hwnd }, self.name.as_str());
        match title {
            Some(t) => event.with_metadata("window_title", t),
            None => event,
        }
    }

    /// Whether the observer runs.
    pub fn is_running(&self) -> (r: bool)
        ensures
            r == self.state.spec_is_running(),
    {
        self.state.is_running()
    }

    /// What `start` has to do: nothing where the observer runs already.
    pub fn start_decision(&self) -> (r: StartDecision)
        ensures
            r == (if self.state.spec_is_running() {
                StartDecision::AlreadyRunning
            } else {
                StartDecision::Launch
            }),
    {
        self.state.on_start()
    }

    /// Takes note of how installing the hooks went: the observer runs
    /// where the hook thread is alive after the grace period, else it
    /// stays stopped and the result is an initialization error.
    pub fn finish_start(&mut self, alive: bool) -> (r: Result<(), PluginError>)
        ensures
            final(self).name == old(self).name,
            final(self).title_filter == old(self).title_filter,
            final(self).process_filter == old(self).process_filter,
            final(self).previous_hwnd == old(self).previous_hwnd,
            final(self).state.spec_is_running() == alive,
            alive ==> r is Ok,
            !alive ==> (r matches Err(PluginError::Initialization(m)) && m@
                == "Failed to install Windows event hooks"@),
    {
        if alive {
            self.state = Lifecycle::Running;
            Ok(())
        } else {
            self.state = Lifecycle::Stopped;
            Err(
                PluginError::Initialization(
                    String::from_str("Failed to install Windows event hooks"),
                ),
            )
        }
    }

    /// Stops the observer; safe in every state.
    pub fn stop(&mut self)
        ensures
            !final(self).state.spec_is_running(),
            final(self).name == old(self).name,
            final(self).title_filter == old(self).title_filter,
            final(self).process_filter == old(self).process_filter,
            final(self).previous_hwnd == old(self).previous_hwnd,
    {
        self.state = Lifecycle::Stopped;
    }
}

} // verus!
