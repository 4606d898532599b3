//! Rules and their matchers. A matcher is a pure predicate over an event;
//! a rule is a named matcher that can be switched off.

use crate::event::{Event, EventKind};
use crate::pattern::{glob_accepts, glob_check, glob_compiles, glob_match};
use crate::text::{
    contains_ignore_case, contains_ignoring_case, file_name_of, joined, path_file_name, views,
};
use vstd::prelude::*;
use vstd::string::*;

verus! {

/// A predicate over events. `matches` computes what `spec_matches` states,
/// so a matcher has no side effect that a caller could see.
pub trait RuleMatcher: Send + Sync + std::fmt::Debug {
    /// Whether the matcher accepts the event.
    spec fn spec_matches(&self, event: &Event) -> bool;

    /// Whether the matcher accepts the event.
    fn matches(&self, event: &Event) -> (r: bool)
        ensures
            r == self.spec_matches(event),
    ;

    /// A short text that says what the matcher accepts.
    fn description(&self) -> String;

}

/// A named matcher with a switch.
#[derive(Debug)]
pub struct Rule {
    pub name: String,
    pub description: Option<String>,
    pub matcher: Matcher,
    pub enabled: bool,
}

impl Clone for Rule {
    /// A copy with the same name, description and switch, whose matcher
    /// accepts the same events.
    fn clone(&self) -> (r: Self)
        ensures
            r.name == self.name,
            r.description == self.description,
            r.enabled == self.enabled,
            forall|e: Event| #[trigger] r.spec_matches(&e) == self.spec_matches(&e),
    {
        let description = match &self.description {
            Some(d) => Some(d.clone()),
            None => None,
        };
        Rule {
            name: self.name.clone(),
            description,
            matcher: self.matcher.clone(),
            enabled: self.enabled,
        }
    }
}

impl Rule {
    /// An enabled rule without description.
    pub fn new(name: &str, matcher: Matcher) -> (r: Self)
        ensures
            r.name@ == name@,
            r.description is None,
            r.matcher == matcher,
            r.enabled,
    {
        Rule { name: String::from_str(name), description: None, matcher, enabled: true }
    }

    /// The same rule with the description set.
    pub fn with_description(self, desc: &str) -> (r: Self)
        ensures
            r.name == self.name,
            r.description is Some,
            r.description->0@ == desc@,
            r.matcher == self.matcher,
            r.enabled == self.enabled,
    {
        let mut rule = self;
        rule.description = Some(String::from_str(desc));
        rule
    }

    /// The same rule with the switch set.
    pub fn with_enabled(self, enabled: bool) -> (r: Self)
        ensures
            r.name == self.name,
            r.description == self.description,
            r.matcher == self.matcher,
            r.enabled == enabled,
    {
        let mut rule = self;
        rule.enabled = enabled;
        rule
    }

    /// A rule accepts an event when it is enabled and its matcher accepts
    /// the event.
    pub open spec fn spec_matches(&self, event: &Event) -> bool {
        self.enabled && self.matcher.spec_matches(event)
    }

    /// Whether the rule is enabled and its matcher accepts the event.
    pub fn matches(&self, event: &Event) -> (r: bool)
        ensures
            r == self.spec_matches(event),
    {
        if !self.enabled {
            return false;
        }
        self.matcher.matches(event)
    }
}

/// Whether an event of kind `actual` is one that `expected` asks for: the
/// two are the same variant, and where the variant is a plain file event
/// the paths are equal too. Other fields are not compared.
pub open spec fn kind_matches(expected: &EventKind, actual: &EventKind) -> bool {
    match (expected, actual) {
        (EventKind::FileCreated { path: left }, EventKind::FileCreated { path: right }) => left@ == right@,
        (EventKind::FileModified { path: left }, EventKind::FileModified { path: right }) => left@ == right@,
        (EventKind::FileDeleted { path: left }, EventKind::FileDeleted { path: right }) => left@ == right@,
        (
            EventKind::FileRenamed { old_path: o1, new_path: n1 },
            EventKind::FileRenamed { old_path: o2, new_path: n2 },
        ) => o1@ == o2@ && n1@ == n2@,
        (EventKind::WindowCreated { .. }, EventKind::WindowCreated { .. }) => true,
        (EventKind::WindowDestroyed { .. }, EventKind::WindowDestroyed { .. }) => true,
        (EventKind::WindowFocused { .. }, EventKind::WindowFocused { .. }) => true,
        (EventKind::WindowUnfocused { .. }, EventKind::WindowUnfocused { .. }) => true,
        (EventKind::ProcessStarted { .. }, EventKind::ProcessStarted { .. }) => true,
        (EventKind::ProcessStopped { .. }, EventKind::ProcessStopped { .. }) => true,
        (EventKind::ThreadCreated { .. }, EventKind::ThreadCreated { .. }) => true,
        (EventKind::ThreadDestroyed { .. }, EventKind::ThreadDestroyed { .. }) => true,
        (EventKind::FileAccessed { .. }, EventKind::FileAccessed { .. }) => true,
        (EventKind::FileIoRead { .. }, EventKind::FileIoRead { .. }) => true,
        (EventKind::FileIoWrite { .. }, EventKind::FileIoWrite { .. }) => true,
        (EventKind::FileIoDelete { .. }, EventKind::FileIoDelete { .. }) => true,
        (
            EventKind::NetworkConnectionCreated { .. },
            EventKind::NetworkConnectionCreated { .. },
        ) => true,
        (
            EventKind::NetworkConnectionClosed { .. },
            EventKind::NetworkConnectionClosed { .. },
        ) => true,
        (EventKind::RegistryChanged { .. }, EventKind::RegistryChanged { .. }) => true,
        (EventKind::TimerTick, EventKind::TimerTick) => true,
        _ => false,
    }
}

/// Whether an event of kind `actual` is one that `expected` asks for.
pub fn matches_event_kind(expected: &EventKind, actual: &EventKind) -> (r: bool)
    ensures
        r == kind_matches(expected, actual),
{
    match (expected, actual) {
        (EventKind::FileCreated { path: left }, EventKind::FileCreated { path: right }) => *left == *right,
        (EventKind::FileModified { path: left }, EventKind::FileModified { path: right }) => *left == *right,
        (EventKind::FileDeleted { path: left }, EventKind::FileDeleted { path: right }) => *left == *right,
        (
            EventKind::FileRenamed { old_path: o1, new_path: n1 },
            EventKind::FileRenamed { old_path: o2, new_path: n2 },
        ) => *o1 == *o2 && *n1 == *n2,
        (EventKind::WindowCreated { .. }, EventKind::WindowCreated { .. }) => true,
        (EventKind::WindowDestroyed { .. }, EventKind::WindowDestroyed { .. }) => true,
        (EventKind::WindowFocused { .. }, EventKind::WindowFocused { .. }) => true,
        (EventKind::WindowUnfocused { .. }, EventKind::WindowUnfocused { .. }) => true,
        (EventKind::ProcessStarted { .. }, EventKind::ProcessStarted { .. }) => true,
        (EventKind::ProcessStopped { .. }, EventKind::ProcessStopped { .. }) => true,
        (EventKind::ThreadCreated { .. }, EventKind::ThreadCreated { .. }) => true,
        (EventKind::ThreadDestroyed { .. }, EventKind::ThreadDestroyed { .. }) => true,
        (EventKind::FileAccessed { .. }, EventKind::FileAccessed { .. }) => true,
        (EventKind::FileIoRead { .. }, EventKind::FileIoRead { .. }) => true,
        (EventKind::FileIoWrite { .. }, EventKind::FileIoWrite { .. }) => true,
        (EventKind::FileIoDelete { .. }, EventKind::FileIoDelete { .. }) => true,
        (
            EventKind::NetworkConnectionCreated { .. },
            EventKind::NetworkConnectionCreated { .. },
        ) => true,
        (
            EventKind::NetworkConnectionClosed { .. },
            EventKind::NetworkConnectionClosed { .. },
        ) => true,
        (EventKind::RegistryChanged { .. }, EventKind::RegistryChanged { .. }) => true,
        (EventKind::TimerTick, EventKind::TimerTick) => true,
        _ => false,
    }
}

/// Accepts the events whose kind is the one held.
#[derive(Debug, Clone)]
pub struct EventKindMatcher {
    pub kind: EventKind,
}

impl EventKindMatcher {
    /// The text that describes the matcher.
    pub open spec fn spec_description(&self) -> Seq<char> {
        "Event kind matches "@ + self.kind.spec_name()
    }

    fn describe(&self) -> (r: String)
        ensures
            r@ == self.spec_description(),
    {
        let name = self.kind.name();
        crate::text::concat2("Event kind matches ", name.as_str())
    }
}

impl RuleMatcher for EventKindMatcher {
    open spec fn spec_matches(&self, event: &Event) -> bool {
        kind_matches(&self.kind, &event.kind)
    }

    fn matches(&self, event: &Event) -> (r: bool) {
        matches_event_kind(&self.kind, &event.kind)
    }

    fn description(&self) -> (r: String)
        ensures
            r@ == self.spec_description(),
    {
        self.describe()
    }
}

/// A copy of an event kind, equal to it.
pub(crate) fn clone_kind(kind: &EventKind) -> (r: EventKind)
    ensures
        r == *kind,
{
    match kind {
        EventKind::FileCreated { path } => EventKind::FileCreated { path: path.clone() },
        EventKind::FileModified { path } => EventKind::FileModified { path: path.clone() },
        EventKind::FileDeleted { path } => EventKind::FileDeleted { path: path.clone() },
        EventKind::FileRenamed { old_path, new_path } => EventKind::FileRenamed {
            old_path: old_path.clone(),
            new_path: new_path.clone(),
        },
        EventKind::WindowCreated { hwnd, title, process_id } => EventKind::WindowCreated {
            hwnd: *hwnd,
            title: title.clone(),
            process_id: *process_id,
        },
        EventKind::WindowDestroyed { hwnd } => EventKind::WindowDestroyed { hwnd: *hwnd },
        EventKind::WindowFocused { hwnd, title } => EventKind::WindowFocused {
            hwnd: *hwnd,
            title: title.clone(),
        },
        EventKind::WindowUnfocused { hwnd, title } => EventKind::WindowUnfocused {
            hwnd: *hwnd,
            title: title.clone(),
        },
        EventKind::ProcessStarted {
            pid,
            parent_pid,
            name,
            path,
            command_line,
            session_id,
            user,
        } => EventKind::ProcessStarted {
            pid: *pid,
            parent_pid: *parent_pid,
            name: name.clone(),
            path: path.clone(),
            command_line: command_line.clone(),
            session_id: *session_id,
            user: user.clone(),
        },
        EventKind::ProcessStopped { pid, name, exit_code } => EventKind::ProcessStopped {
            pid: *pid,
            name: name.clone(),
            exit_code: *exit_code,
        },
        EventKind::ThreadCreated { pid, tid, start_address, user_stack } => {
            let stack = match user_stack {
                Some(s) => Some(s.clone()),
                None => None,
            };
            EventKind::ThreadCreated {
                pid: *pid,
                tid: *tid,
                start_address: *start_address,
                user_stack: stack,
            }
        },
        EventKind::ThreadDestroyed { pid, tid } => EventKind::ThreadDestroyed {
            pid: *pid,
            tid: *tid,
        },
        EventKind::FileAccessed { pid, path, access_mask } => EventKind::FileAccessed {
            pid: *pid,
            path: path.clone(),
            access_mask: *access_mask,
        },
        EventKind::FileIoRead { pid, path, bytes_read } => EventKind::FileIoRead {
            pid: *pid,
            path: path.clone(),
            bytes_read: *bytes_read,
        },
        EventKind::FileIoWrite { pid, path, bytes_written } => EventKind::FileIoWrite {
            pid: *pid,
            path: path.clone(),
            bytes_written: *bytes_written,
        },
        EventKind::FileIoDelete { pid, path } => EventKind::FileIoDelete {
            pid: *pid,
            path: path.clone(),
        },
        EventKind::NetworkConnectionCreated {
            pid,
            local_addr,
            local_port,
            remote_addr,
            remote_port,
            protocol,
        } => {
            let proto = match protocol {
                crate::event::NetworkProtocol::Tcp => crate::event::NetworkProtocol::Tcp,
                crate::event::NetworkProtocol::Udp => crate::event::NetworkProtocol::Udp,
                crate::event::NetworkProtocol::Other(s) => crate::event::NetworkProtocol::Other(
                    s.clone(),
                ),
            };
            EventKind::NetworkConnectionCreated {
                pid: *pid,
                local_addr: local_addr.clone(),
                local_port: *local_port,
                remote_addr: remote_addr.clone(),
                remote_port: *remote_port,
                protocol: proto,
            }
        },
        EventKind::NetworkConnectionClosed {
            pid,
            local_addr,
            local_port,
            remote_addr,
            remote_port,
        } => EventKind::NetworkConnectionClosed {
            pid: *pid,
            local_addr: local_addr.clone(),
            local_port: *local_port,
            remote_addr: remote_addr.clone(),
            remote_port: *remote_port,
        },
        EventKind::RegistryChanged { root, key, value_name, change_type } => {
            let value = match value_name {
                Some(s) => Some(s.clone()),
                None => None,
            };
            let change = match change_type {
                crate::event::RegistryChangeType::Created => {
                    crate::event::RegistryChangeType::Created
                },
                crate::event::RegistryChangeType::Modified => {
                    crate::event::RegistryChangeType::Modified
                },
                crate::event::RegistryChangeType::Deleted => {
                    crate::event::RegistryChangeType::Deleted
                },
            };
            EventKind::RegistryChanged {
                root: root.clone(),
                key: key.clone(),
                value_name: value,
                change_type: change,
            }
        },
        EventKind::TimerTick => EventKind::TimerTick,
    }
}

/// Which window events a window matcher asks for.
#[derive(Debug, Clone, Copy, PartialEq, Eq, Structural)]
pub enum WindowEventType {
    Focused,
    Unfocused,
    Created,
    Destroyed,
}

impl WindowEventType {
    /// The name of the variant.
    pub open spec fn spec_name(&self) -> Seq<char> {
        match self {
            WindowEventType::Focused => "Focused"@,
            WindowEventType::Unfocused => "Unfocused"@,
            WindowEventType::Created => "Created"@,
            WindowEventType::Destroyed => "Destroyed"@,
        }
    }

    /// The name of the variant.
    pub fn name(&self) -> (r: String)
        ensures
            r@ == self.spec_name(),
    {
        match self {
            WindowEventType::Focused => String::from_str("Focused"),
            WindowEventType::Unfocused => String::from_str("Unfocused"),
            WindowEventType::Created => String::from_str("Created"),
            WindowEventType::Destroyed => String::from_str("Destroyed"),
        }
    }
}

/// Accepts window events of one type; the optional filters ask that the
/// title, or the name of the owning process, contain a text, letter case
/// aside.
#[derive(Debug, Clone)]
pub struct WindowMatcher {
    pub event_type: WindowEventType,
    pub title_contains: Option<String>,
    pub process_name: Option<String>,
}

/// The process name that an event carries in its metadata, or the empty
/// text.
pub open spec fn process_name_of(event: &Event) -> Seq<char> {
    if event.metadata@.dom().contains("process_name"@) {
        event.metadata@["process_name"@]
    } else {
        Seq::empty()
    }
}

/// What a window matcher reads from an event: the type of window event,
/// the title and the process name. For a created window the process name
/// is not read and counts as empty, for a destroyed one the title too.
pub open spec fn window_facts(event: &Event) -> Option<(WindowEventType, Seq<char>, Seq<char>)> {
    match event.kind {
        EventKind::WindowFocused { hwnd: _, title } => Some(
            (WindowEventType::Focused, title@, process_name_of(event)),
        ),
        EventKind::WindowUnfocused { hwnd: _, title } => Some(
            (WindowEventType::Unfocused, title@, process_name_of(event)),
        ),
        EventKind::WindowCreated { hwnd: _, title, process_id: _ } => Some(
            (WindowEventType::Created, title@, Seq::empty()),
        ),
        EventKind::WindowDestroyed { hwnd: _ } => Some(
            (WindowEventType::Destroyed, Seq::empty(), Seq::empty()),
        ),
        _ => None,
    }
}

impl WindowMatcher {
    /// Whether a window event of the given type, title and process name
    /// passes the type test and both filters.
    pub open spec fn accepts(
        &self,
        event_type: WindowEventType,
        title: Seq<char>,
        process: Seq<char>,
    ) -> bool {
        &&& event_type == self.event_type
        &&& self.title_contains matches Some(filter) ==> contains_ignoring_case(title, filter@)
        &&& self.process_name matches Some(filter) ==> contains_ignoring_case(process, filter@)
    }

    fn check(&self, event_type: WindowEventType, title: &str, process: &str) -> (r: bool)
        ensures
            r == self.accepts(event_type, title@, process@),
    {
        if event_type != self.event_type {
            return false;
        }
        if let Some(filter) = &self.title_contains {
            if !contains_ignore_case(title, filter.as_str()) {
                return false;
            }
        }
        if let Some(filter) = &self.process_name {
            if !contains_ignore_case(process, filter.as_str()) {
                return false;
            }
        }
        true
    }
}

fn process_name_in(event: &Event) -> (r: String)
    ensures
        r@ == process_name_of(event),
{
    match event.metadata.get("process_name") {
        Some(name) => name.clone(),
        None => String::new(),
    }
}

/// Whether a window matcher accepts an event: the event is a window event
/// and its facts pass the matcher's tests.
pub open spec fn window_matches(matcher: &WindowMatcher, event: &Event) -> bool {
    match window_facts(event) {
        Some((event_type, title, process)) => matcher.accepts(event_type, title, process),
        None => false,
    }
}

impl WindowMatcher {
    fn check_event(&self, event: &Event) -> (r: bool)
        ensures
            r == window_matches(self, event),
    {
        match &event.kind {
            EventKind::WindowFocused { hwnd: _, title } => {
                let process = process_name_in(event);
                self.check(WindowEventType::Focused, title.as_str(), process.as_str())
            },
            EventKind::WindowUnfocused { hwnd: _, title } => {
                let process = process_name_in(event);
                self.check(WindowEventType::Unfocused, title.as_str(), process.as_str())
            },
            EventKind::WindowCreated { hwnd: _, title, process_id: _ } => {
                let process = String::new();
                self.check(WindowEventType::Created, title.as_str(), process.as_str())
            },
            EventKind::WindowDestroyed { hwnd: _ } => {
                let empty = String::new();
                self.check(WindowEventType::Destroyed, empty.as_str(), empty.as_str())
            },
            _ => false,
        }
    }

    /// The text that describes the matcher.
    pub open spec fn spec_description(&self) -> Seq<char> {
        "Window "@ + self.event_type.spec_name() + " event"@ + (match self.title_contains {
            Some(t) => " with title containing '"@ + t@ + "'"@,
            None => Seq::empty(),
        }) + (match self.process_name {
            Some(p) => " from process '"@ + p@ + "'"@,
            None => Seq::empty(),
        })
    }

    fn describe(&self) -> (r: String)
        ensures
            r@ == self.spec_description(),
    {
        let name = self.event_type.name();
        let mut desc = crate::text::concat3("Window ", name.as_str(), " event");
        let ghost head = desc@;
        if let Some(title) = &self.title_contains {
            desc.append(" with title containing '");
            desc.append(title.as_str());
            desc.append("'");
            assert(desc@ =~= head + (" with title containing '"@ + title@ + "'"@));
        } else {
            assert(desc@ =~= head + Seq::<char>::empty());
        }
        let ghost middle = desc@;
        if let Some(process) = &self.process_name {
            desc.append(" from process '");
            desc.append(process.as_str());
            desc.append("'");
            assert(desc@ =~= middle + (" from process '"@ + process@ + "'"@));
        } else {
            assert(desc@ =~= middle + Seq::<char>::empty());
        }
        desc
    }
}

impl RuleMatcher for WindowMatcher {
    open spec fn spec_matches(&self, event: &Event) -> bool {
        window_matches(self, event)
    }

    fn matches(&self, event: &Event) -> (r: bool) {
        self.check_event(event)
    }

    fn description(&self) -> (r: String)
        ensures
            r@ == self.spec_description(),
    {
        self.describe()
    }
}

/// Which file events a file matcher asks for.
#[derive(Debug, Clone, Copy, PartialEq, Eq, Structural)]
pub enum FileEventType {
    Created,
    Modified,
    Deleted,
    Any,
}

impl FileEventType {
    /// The name of the variant.
    pub open spec fn spec_name(&self) -> Seq<char> {
        match self {
            FileEventType::Created => "Created"@,
            FileEventType::Modified => "Modified"@,
            FileEventType::Deleted => "Deleted"@,
            FileEventType::Any => "Any"@,
        }
    }

    /// The name of the variant.
    pub fn name(&self) -> (r: String)
        ensures
            r@ == self.spec_name(),
    {
        match self {
            FileEventType::Created => String::from_str("Created"),
            FileEventType::Modified => String::from_str("Modified"),
            FileEventType::Deleted => String::from_str("Deleted"),
            FileEventType::Any => String::from_str("Any"),
        }
    }
}

/// What a file matcher reads from an event: which plain file event it is,
/// and the path. Events of other kinds give `None`.
pub open spec fn file_facts(event: &Event) -> Option<(FileEventType, Seq<char>)> {
    match event.kind {
        EventKind::FileCreated { path } => Some((FileEventType::Created, path@)),
        EventKind::FileModified { path } => Some((FileEventType::Modified, path@)),
        EventKind::FileDeleted { path } => Some((FileEventType::Deleted, path@)),
        _ => None,
    }
}

/// Whether the final component of `path` exists and matches the glob.
pub open spec fn file_name_accepted(pattern: Seq<char>, path: Seq<char>) -> bool {
    path_file_name(path) matches Some(name) && glob_accepts(pattern, name)
}

/// Accepts created, modified or deleted files; the optional globs are held
/// against the whole path and against its final component. Every glob held
/// is one that compiles.
#[derive(Debug)]
pub struct FilePatternMatcher {
    event_type: FileEventType,
    path_pattern: Option<String>,
    file_pattern: Option<String>,
}

impl Clone for FilePatternMatcher {
    /// A copy with the same event type and globs.
    fn clone(&self) -> (r: Self)
        ensures
            r.spec_event_type() == self.spec_event_type(),
            r.spec_path_pattern() == self.spec_path_pattern(),
            r.spec_file_pattern() == self.spec_file_pattern(),
    {
        proof {
            use_type_invariant(self);
        }
        let path_pattern = match &self.path_pattern {
            Some(p) => Some(p.clone()),
            None => None,
        };
        let file_pattern = match &self.file_pattern {
            Some(p) => Some(p.clone()),
            None => None,
        };
        FilePatternMatcher { event_type: self.event_type, path_pattern, file_pattern }
    }
}

impl FilePatternMatcher {
    #[verifier::type_invariant]
    closed spec fn well_formed(&self) -> bool {
        &&& self.path_pattern matches Some(p) ==> glob_compiles(p@)
        &&& self.file_pattern matches Some(p) ==> glob_compiles(p@)
    }

    /// The event type asked for.
    pub closed spec fn spec_event_type(&self) -> FileEventType {
        self.event_type
    }

    /// The glob held against the whole path, if any.
    pub closed spec fn spec_path_pattern(&self) -> Option<Seq<char>> {
        match self.path_pattern {
            Some(p) => Some(p@),
            None => None,
        }
    }

    /// The glob held against the final component, if any.
    pub closed spec fn spec_file_pattern(&self) -> Option<Seq<char>> {
        match self.file_pattern {
            Some(p) => Some(p@),
            None => None,
        }
    }

    /// The event type asked for.
    pub fn event_type(&self) -> (r: FileEventType)
        ensures
            r == self.spec_event_type(),
    {
        self.event_type
    }

    /// The glob held against the final component, if any; it compiles.
    pub fn file_pattern(&self) -> (r: Option<&String>)
        ensures
            r is Some <==> self.spec_file_pattern() is Some,
            r matches Some(p) ==> self.spec_file_pattern() == Some(p@) && glob_compiles(p@),
    {
        proof {
            use_type_invariant(self);
        }
        match &self.file_pattern {
            Some(p) => Some(p),
            None => None,
        }
    }

    /// The glob held against the whole path, if any; it compiles.
    pub fn path_pattern(&self) -> (r: Option<&String>)
        ensures
            r is Some <==> self.spec_path_pattern() is Some,
            r matches Some(p) ==> self.spec_path_pattern() == Some(p@) && glob_compiles(p@),
    {
        proof {
            use_type_invariant(self);
        }
        match &self.path_pattern {
            Some(p) => Some(p),
            None => None,
        }
    }

    fn of_type(event_type: FileEventType) -> (r: Self)
        ensures
            r.spec_event_type() == event_type,
            r.spec_path_pattern() is None,
            r.spec_file_pattern() is None,
    {
        FilePatternMatcher { event_type, path_pattern: None, file_pattern: None }
    }

    /// Accepts every created file.
    pub fn created() -> (r: Self)
        ensures
            r.spec_event_type() == FileEventType::Created,
            r.spec_path_pattern() is None,
            r.spec_file_pattern() is None,
    {
        Self::of_type(FileEventType::Created)
    }

    /// Accepts every modified file.
    pub fn modified() -> (r: Self)
        ensures
            r.spec_event_type() == FileEventType::Modified,
            r.spec_path_pattern() is None,
            r.spec_file_pattern() is None,
    {
        Self::of_type(FileEventType::Modified)
    }

    /// Accepts every deleted file.
    pub fn deleted() -> (r: Self)
        ensures
            r.spec_event_type() == FileEventType::Deleted,
            r.spec_path_pattern() is None,
            r.spec_file_pattern() is None,
    {
        Self::of_type(FileEventType::Deleted)
    }

    /// Accepts every created, modified or deleted file.
    pub fn any() -> (r: Self)
        ensures
            r.spec_event_type() == FileEventType::Any,
            r.spec_path_pattern() is None,
            r.spec_file_pattern() is None,
    {
        Self::of_type(FileEventType::Any)
    }

    /// The same matcher with a glob for the whole path. It fails, with the
    /// glob crate's error, exactly where the text does not compile.
    pub fn with_path_pattern(self, pattern: &str) -> (r: Result<Self, glob::PatternError>)
        ensures
            r is Ok <==> glob_compiles(pattern@),
            r matches Ok(m) ==> {
                &&& m.spec_event_type() == self.spec_event_type()
                &&& m.spec_path_pattern() == Some(pattern@)
                &&& m.spec_file_pattern() == self.spec_file_pattern()
            },
    {
        proof {
            use_type_invariant(&self);
        }
        match glob_check(pattern) {
            Ok(()) => {
                let FilePatternMatcher { event_type, path_pattern: _, file_pattern } = self;
                Ok(
                    FilePatternMatcher {
                        event_type,
                        path_pattern: Some(String::from_str(pattern)),
                        file_pattern,
                    },
                )
            },
            Err(e) => Err(e),
        }
    }

    /// The same matcher with a glob for the final path component. It
    /// fails, with the glob crate's error, exactly where the text does not
    /// compile.
    pub fn with_file_pattern(self, pattern: &str) -> (r: Result<Self, glob::PatternError>)
        ensures
            r is Ok <==> glob_compiles(pattern@),
            r matches Ok(m) ==> {
                &&& m.spec_event_type() == self.spec_event_type()
                &&& m.spec_path_pattern() == self.spec_path_pattern()
                &&& m.spec_file_pattern() == Some(pattern@)
            },
    {
        proof {
            use_type_invariant(&self);
        }
        match glob_check(pattern) {
            Ok(()) => {
                let FilePatternMatcher { event_type, path_pattern, file_pattern: _ } = self;
                Ok(
                    FilePatternMatcher {
                        event_type,
                        path_pattern,
                        file_pattern: Some(String::from_str(pattern)),
                    },
                )
            },
            Err(e) => Err(e),
        }
    }

    /// Whether a file event of the given type and path passes the type
    /// test and both globs. A path without a final component passes no
    /// glob for the file name.
    pub open spec fn accepts(&self, event_type: FileEventType, path: Seq<char>) -> bool {
        &&& self.spec_event_type() == FileEventType::Any || self.spec_event_type() == event_type
        &&& self.spec_path_pattern() matches Some(p) ==> glob_accepts(p, path)
        &&& self.spec_file_pattern() matches Some(p) ==> file_name_accepted(p, path)
    }

    fn check(&self, event_type: FileEventType, path: &str) -> (r: bool)
        ensures
            r == self.accepts(event_type, path@),
    {
        if self.event_type != FileEventType::Any && self.event_type != event_type {
            return false;
        }
        if let Some(pattern) = &self.path_pattern {
            if !glob_match(pattern.as_str(), path) {
                return false;
            }
        }
        if let Some(pattern) = &self.file_pattern {
            match file_name_of(path) {
                Some(name) => {
                    if !glob_match(pattern.as_str(), name.as_str()) {
                        return false;
                    }
                },
                None => {
                    return false;
                },
            }
        }
        true
    }
}

/// Whether a file matcher accepts an event: the event is a plain file
/// event and its facts pass the matcher's tests.
pub open spec fn file_matches(matcher: &FilePatternMatcher, event: &Event) -> bool {
    match file_facts(event) {
        Some((event_type, path)) => matcher.accepts(event_type, path),
        None => false,
    }
}

impl FilePatternMatcher {
    fn check_event(&self, event: &Event) -> (r: bool)
        ensures
            r == file_matches(self, event),
    {
        match &event.kind {
            EventKind::FileCreated { path } => self.check(FileEventType::Created, path.as_str()),
            EventKind::FileModified { path } => self.check(FileEventType::Modified, path.as_str()),
            EventKind::FileDeleted { path } => self.check(FileEventType::Deleted, path.as_str()),
            _ => false,
        }
    }

    /// The text that describes the matcher.
    pub open spec fn spec_description(&self) -> Seq<char> {
        "File "@ + self.spec_event_type().spec_name() + " event"@ + (
        match self.spec_file_pattern() {
            Some(p) => " matching '"@ + p + "'"@,
            None => Seq::empty(),
        })
    }

    fn describe(&self) -> (r: String)
        ensures
            r@ == self.spec_description(),
    {
        let name = self.event_type.name();
        let mut desc = crate::text::concat3("File ", name.as_str(), " event");
        let ghost head = desc@;
        if let Some(pattern) = &self.file_pattern {
            desc.append(" matching '");
            desc.append(pattern.as_str());
            desc.append("'");
            assert(desc@ =~= head + (" matching '"@ + pattern@ + "'"@));
        } else {
            assert(desc@ =~= head + Seq::<char>::empty());
        }
        desc
    }
}

impl RuleMatcher for FilePatternMatcher {
    open spec fn spec_matches(&self, event: &Event) -> bool {
        file_matches(self, event)
    }

    fn matches(&self, event: &Event) -> (r: bool) {
        self.check_event(event)
    }

    fn description(&self) -> (r: String)
        ensures
            r@ == self.spec_description(),
    {
        self.describe()
    }
}

/// A matcher for created files with a glob for the file name accepts
/// exactly the events that report a created file whose final path
/// component matches the glob.
pub proof fn lemma_created_with_file_pattern(
    matcher: FilePatternMatcher,
    pattern: Seq<char>,
    event: Event,
)
    requires
        matcher.spec_event_type() == FileEventType::Created,
        matcher.spec_path_pattern() is None,
        matcher.spec_file_pattern() == Some(pattern),
    ensures
        matcher.spec_matches(&event) <==> (event.kind matches EventKind::FileCreated { path }
            && path_file_name(path@) matches Some(name) && glob_accepts(pattern, name)),
{
}

/// How a composite matcher combines its parts.
#[derive(Debug, Clone, Copy, PartialEq, Eq, Structural)]
pub enum MatchOperator {
    And,
    Or,
}

/// Combines matchers: with `And` every part has to accept the event, with
/// `Or` at least one.
#[derive(Debug)]
pub struct CompositeMatcher {
    pub matchers: Vec<Matcher>,
    pub operator: MatchOperator,
}

/// The closed set of matchers.
#[derive(Debug)]
pub enum Matcher {
    EventKind(EventKindMatcher),
    Window(WindowMatcher),
    FilePattern(FilePatternMatcher),
    Composite(CompositeMatcher),
}

/// Whether a matcher accepts an event. A composite asks its parts: all of
/// them with `And`, at least one of them with `Or`.
pub open spec fn matcher_accepts(matcher: Matcher, event: &Event) -> bool
    decreases matcher, 0int,
{
    match matcher {
        Matcher::EventKind(m) => kind_matches(&m.kind, &event.kind),
        Matcher::Window(m) => window_matches(&m, event),
        Matcher::FilePattern(m) => file_matches(&m, event),
        Matcher::Composite(m) => match m.operator {
            MatchOperator::And => all_accept(m.matchers@, event, m.matchers@.len() as int),
            MatchOperator::Or => some_accepts(m.matchers@, event, m.matchers@.len() as int),
        },
    }
}

/// Whether each of the first `n` parts accepts the event; true of no
/// parts.
pub open spec fn all_accept(parts: Seq<Matcher>, event: &Event, n: int) -> bool
    decreases parts, n,
{
    if n <= 0 || n > parts.len() {
        true
    } else {
        all_accept(parts, event, n - 1) && matcher_accepts(parts[n - 1], event)
    }
}

/// Whether one of the first `n` parts accepts the event; false of no
/// parts.
pub open spec fn some_accepts(parts: Seq<Matcher>, event: &Event, n: int) -> bool
    decreases parts, n,
{
    if n <= 0 || n > parts.len() {
        false
    } else {
        some_accepts(parts, event, n - 1) || matcher_accepts(parts[n - 1], event)
    }
}

/// Whether the parts, combined by the operator, accept the event.
pub open spec fn parts_accept(parts: Seq<Matcher>, operator: MatchOperator, event: &Event) -> bool {
    match operator {
        MatchOperator::And => all_accept(parts, event, parts.len() as int),
        MatchOperator::Or => some_accepts(parts, event, parts.len() as int),
    }
}

/// The first `n` parts all accept the event exactly when each of them
/// does, and one of them accepts it exactly when some part among them
/// does.
pub proof fn lemma_parts(parts: Seq<Matcher>, event: &Event, n: int)
    requires
        0 <= n <= parts.len(),
    ensures
        all_accept(parts, event, n) <==> (forall|i: int|
            0 <= i < n ==> #[trigger] matcher_accepts(parts[i], event)),
        some_accepts(parts, event, n) <==> (exists|i: int|
            0 <= i < n && #[trigger] matcher_accepts(parts[i], event)),
    decreases n,
{
    if n > 0 {
        lemma_parts(parts, event, n - 1);
        let last = matcher_accepts(parts[n - 1], event);
        assert(all_accept(parts, event, n) == (all_accept(parts, event, n - 1) && last));
        assert(some_accepts(parts, event, n) == (some_accepts(parts, event, n - 1) || last));
        if all_accept(parts, event, n) {
            assert forall|i: int| 0 <= i < n implies #[trigger] matcher_accepts(
                parts[i],
                event,
            ) by {
                if i == n - 1 {
                    assert(last);
                }
            }
        }
        if some_accepts(parts, event, n) {
            if matcher_accepts(parts[n - 1], event) {
            } else {
                let i = choose|i: int| 0 <= i < n - 1 && #[trigger] matcher_accepts(parts[i], event);
                assert(0 <= i < n && matcher_accepts(parts[i], event));
            }
        }
    }
}

fn evaluate_all(parts: &Vec<Matcher>, event: &Event) -> (r: bool)
    ensures
        r == all_accept(parts@, event, parts@.len() as int),
    decreases parts, 1int,
{
    let mut i: usize = 0;
    while i < parts.len()
        invariant
            i <= parts@.len(),
            all_accept(parts@, event, i as int),
        decreases parts@.len() - i,
    {
        proof {
            assert(decreases_to!(parts => parts@));
            assert(decreases_to!(parts@ => parts@[i as int]));
        }
        if !evaluate(&parts[i], event) {
            proof {
                lemma_parts(parts@, event, parts@.len() as int);
            }
            return false;
        }
        i = i + 1;
    }
    true
}

fn evaluate_some(parts: &Vec<Matcher>, event: &Event) -> (r: bool)
    ensures
        r == some_accepts(parts@, event, parts@.len() as int),
    decreases parts, 1int,
{
    let mut i: usize = 0;
    while i < parts.len()
        invariant
            i <= parts@.len(),
            !some_accepts(parts@, event, i as int),
        decreases parts@.len() - i,
    {
        proof {
            assert(decreases_to!(parts => parts@));
            assert(decreases_to!(parts@ => parts@[i as int]));
        }
        if evaluate(&parts[i], event) {
            proof {
                lemma_parts(parts@, event, parts@.len() as int);
            }
            return true;
        }
        i = i + 1;
    }
    false
}

fn evaluate(matcher: &Matcher, event: &Event) -> (r: bool)
    ensures
        r == matcher_accepts(*matcher, event),
    decreases matcher, 0int,
{
    match matcher {
        Matcher::EventKind(m) => matches_event_kind(&m.kind, &event.kind),
        Matcher::Window(m) => m.check_event(event),
        Matcher::FilePattern(m) => m.check_event(event),
        Matcher::Composite(m) => match m.operator {
            MatchOperator::And => evaluate_all(&m.matchers, event),
            MatchOperator::Or => evaluate_some(&m.matchers, event),
        },
    }
}

/// The text that stands between the parts of a composite's description.
pub open spec fn separator_of(operator: MatchOperator) -> Seq<char> {
    match operator {
        MatchOperator::And => " AND "@,
        MatchOperator::Or => " OR "@,
    }
}

/// The texts that describe the first `n` parts, in order.
pub open spec fn part_texts(parts: Seq<Matcher>, n: int) -> Seq<Seq<char>>
    decreases parts, n,
{
    if n <= 0 || n > parts.len() {
        Seq::empty()
    } else {
        part_texts(parts, n - 1).push(description_of(parts[n - 1]))
    }
}

/// The text that describes a composite: the descriptions of its parts,
/// joined by the operator's word, in parentheses.
pub open spec fn parts_description(parts: Seq<Matcher>, operator: MatchOperator) -> Seq<char> {
    "("@ + joined(part_texts(parts, parts.len() as int), separator_of(operator)) + ")"@
}

/// The text that describes a matcher.
pub open spec fn description_of(matcher: Matcher) -> Seq<char>
    decreases matcher, 0int,
{
    match matcher {
        Matcher::EventKind(m) => m.spec_description(),
        Matcher::Window(m) => m.spec_description(),
        Matcher::FilePattern(m) => m.spec_description(),
        Matcher::Composite(m) => "("@ + joined(
            part_texts(m.matchers@, m.matchers@.len() as int),
            separator_of(m.operator),
        ) + ")"@,
    }
}

fn describe_parts(parts: &Vec<Matcher>, operator: MatchOperator) -> (r: String)
    ensures
        r@ == parts_description(parts@, operator),
    decreases parts, 1int,
{
    let mut texts: Vec<String> = Vec::new();
    let mut i: usize = 0;
    assert(views(texts@) =~= part_texts(parts@, 0));
    while i < parts.len()
        invariant
            i <= parts@.len(),
            views(texts@) == part_texts(parts@, i as int),
        decreases parts@.len() - i,
    {
        proof {
            assert(decreases_to!(parts => parts@));
            assert(decreases_to!(parts@ => parts@[i as int]));
        }
        let ghost before = texts@;
        let text = describe(&parts[i]);
        texts.push(text);
        assert(views(texts@) =~= views(before).push(text@));
        i = i + 1;
    }
    let separator = match operator {
        MatchOperator::And => " AND ",
        MatchOperator::Or => " OR ",
    };
    let inner = crate::text::join(&texts, separator);
    crate::text::concat3("(", inner.as_str(), ")")
}

fn describe(matcher: &Matcher) -> (r: String)
    ensures
        r@ == description_of(*matcher),
    decreases matcher, 0int,
{
    match matcher {
        Matcher::EventKind(m) => m.describe(),
        Matcher::Window(m) => m.describe(),
        Matcher::FilePattern(m) => m.describe(),
        Matcher::Composite(m) => describe_parts(&m.matchers, m.operator),
    }
}

/// Whether two lists of parts have the same length and accept the same
/// events place by place.
pub open spec fn same_parts(a: Seq<Matcher>, b: Seq<Matcher>) -> bool {
    &&& a.len() == b.len()
    &&& forall|k: int, e: Event|
        0 <= k < a.len() ==> #[trigger] matcher_accepts(a[k], &e) == matcher_accepts(b[k], &e)
}

fn duplicate_parts(parts: &Vec<Matcher>) -> (r: Vec<Matcher>)
    ensures
        same_parts(r@, parts@),
    decreases parts, 1int,
{
    let mut copies: Vec<Matcher> = Vec::new();
    let mut i: usize = 0;
    while i < parts.len()
        invariant
            i <= parts@.len(),
            copies@.len() == i,
            forall|k: int, e: Event|
                0 <= k < i ==> #[trigger] matcher_accepts(copies@[k], &e) == matcher_accepts(
                    parts@[k],
                    &e,
                ),
        decreases parts@.len() - i,
    {
        proof {
            assert(decreases_to!(parts => parts@));
            assert(decreases_to!(parts@ => parts@[i as int]));
        }
        let part = duplicate(&parts[i]);
        copies.push(part);
        i = i + 1;
    }
    copies
}

fn duplicate(matcher: &Matcher) -> (r: Matcher)
    ensures
        forall|e: Event| #[trigger] matcher_accepts(r, &e) == matcher_accepts(*matcher, &e),
    decreases matcher, 0int,
{
    match matcher {
        Matcher::EventKind(m) => {
            let copy = EventKindMatcher { kind: clone_kind(&m.kind) };
            Matcher::EventKind(copy)
        },
        Matcher::Window(m) => {
            let title_contains = match &m.title_contains {
                Some(t) => Some(t.clone()),
                None => None,
            };
            let process_name = match &m.process_name {
                Some(p) => Some(p.clone()),
                None => None,
            };
            let copy = WindowMatcher { event_type: m.event_type, title_contains, process_name };
            assert(forall|e: Event| #[trigger] window_matches(&copy, &e) == window_matches(m, &e));
            Matcher::Window(copy)
        },
        Matcher::FilePattern(m) => {
            let copy = m.clone();
            assert(forall|e: Event| #[trigger] file_matches(&copy, &e) == file_matches(m, &e));
            Matcher::FilePattern(copy)
        },
        Matcher::Composite(m) => {
            let parts = duplicate_parts(&m.matchers);
            let copy = CompositeMatcher { matchers: parts, operator: m.operator };
            let result = Matcher::Composite(copy);
            assert forall|e: Event| #[trigger]
                matcher_accepts(result, &e) == matcher_accepts(*matcher, &e) by {
                lemma_same_prefix(copy.matchers@, m.matchers@, &e, m.matchers@.len() as int);
            }
            result
        },
    }
}

/// Two lists of parts that accept the same events place by place accept
/// the same events under the same operator.
pub proof fn lemma_same_parts(a: Seq<Matcher>, b: Seq<Matcher>, operator: MatchOperator)
    requires
        same_parts(a, b),
    ensures
        forall|e: Event| #[trigger] parts_accept(a, operator, &e) == parts_accept(b, operator, &e),
{
    assert forall|e: Event| #[trigger] parts_accept(a, operator, &e) == parts_accept(
        b,
        operator,
        &e,
    ) by {
        lemma_same_prefix(a, b, &e, a.len() as int);
    }
}

proof fn lemma_same_prefix(a: Seq<Matcher>, b: Seq<Matcher>, event: &Event, n: int)
    requires
        same_parts(a, b),
        0 <= n <= a.len(),
    ensures
        all_accept(a, event, n) == all_accept(b, event, n),
        some_accepts(a, event, n) == some_accepts(b, event, n),
    decreases n,
{
    if n > 0 {
        lemma_same_prefix(a, b, event, n - 1);
        assert(matcher_accepts(a[n - 1], &*event) == matcher_accepts(b[n - 1], &*event));
    }
}

impl Clone for Matcher {
    /// A deep copy that accepts the same events.
    fn clone(&self) -> (r: Self)
        ensures
            forall|e: Event| #[trigger] r.spec_matches(&e) == self.spec_matches(&e),
    {
        duplicate(self)
    }
}

impl RuleMatcher for Matcher {
    open spec fn spec_matches(&self, event: &Event) -> bool {
        matcher_accepts(*self, event)
    }

    fn matches(&self, event: &Event) -> (r: bool) {
        evaluate(self, event)
    }

    fn description(&self) -> (r: String)
        ensures
            r@ == description_of(*self),
    {
        describe(self)
    }
}

impl Clone for CompositeMatcher {
    /// A deep copy that accepts the same events.
    fn clone(&self) -> (r: Self)
        ensures
            r.operator == self.operator,
            forall|e: Event| #[trigger] r.spec_matches(&e) == self.spec_matches(&e),
    {
        let parts = duplicate_parts(&self.matchers);
        proof {
            lemma_same_parts(parts@, self.matchers@, self.operator);
        }
        CompositeMatcher { matchers: parts, operator: self.operator }
    }
}

impl RuleMatcher for CompositeMatcher {
    open spec fn spec_matches(&self, event: &Event) -> bool {
        parts_accept(self.matchers@, self.operator, event)
    }

    fn matches(&self, event: &Event) -> (r: bool) {
        match self.operator {
            MatchOperator::And => evaluate_all(&self.matchers, event),
            MatchOperator::Or => evaluate_some(&self.matchers, event),
        }
    }

    fn description(&self) -> (r: String)
        ensures
            r@ == parts_description(self.matchers@, self.operator),
    {
        describe_parts(&self.matchers, self.operator)
    }
}

/// The places, in ascending order, of the rules among the first `upto`
/// that accept the event.
pub open spec fn matching_indices(rules: Seq<Rule>, event: &Event, upto: int) -> Seq<usize>
    decreases upto,
{
    if upto <= 0 {
        Seq::empty()
    } else if rules[upto - 1].spec_matches(event) {
        matching_indices(rules, event, upto - 1).push((upto - 1) as usize)
    } else {
        matching_indices(rules, event, upto - 1)
    }
}

/// The rules that an event triggers: the place of every enabled rule whose
/// matcher accepts the event, each once, in the order of the rule list.
pub fn matching_rules(rules: &Vec<Rule>, event: &Event) -> (r: Vec<usize>)
    ensures
        r@ == matching_indices(rules@, event, rules@.len() as int),
{
    let mut out: Vec<usize> = Vec::new();
    let mut i: usize = 0;
    while i < rules.len()
        invariant
            i <= rules@.len(),
            out@ == matching_indices(rules@, event, i as int),
        decreases rules@.len() - i,
    {
        if rules[i].matches(event) {
            out.push(i);
        }
        i = i + 1;
    }
    out
}

/// The triggered places are exactly those of the rules that accept the
/// event, and they are listed in strictly ascending order: every matching
/// rule once, in rule-list order.
pub proof fn lemma_matching_indices(rules: Seq<Rule>, event: &Event, upto: int)
    requires
        0 <= upto <= rules.len(),
        rules.len() <= usize::MAX,
    ensures
        forall|k: int|
            0 <= k < matching_indices(rules, event, upto).len() ==> {
                let i = #[trigger] matching_indices(rules, event, upto)[k];
                i < upto && rules[i as int].spec_matches(event)
            },
        forall|a: int, b: int|
            0 <= a < b < matching_indices(rules, event, upto).len() ==> matching_indices(
                rules,
                event,
                upto,
            )[a] < matching_indices(rules, event, upto)[b],
        forall|i: int|
            0 <= i < upto && rules[i].spec_matches(event) ==> matching_indices(
                rules,
                event,
                upto,
            ).contains(i as usize),
    decreases upto,
{
    if upto > 0 {
        lemma_matching_indices(rules, event, upto - 1);
        let prev = matching_indices(rules, event, upto - 1);
        let cur = matching_indices(rules, event, upto);
        if rules[upto - 1].spec_matches(event) {
            assert(cur == prev.push((upto - 1) as usize));
            assert(cur[prev.len() as int] == (upto - 1) as usize);
            assert forall|i: int| 0 <= i < upto && rules[i].spec_matches(event) implies cur.contains(
                i as usize,
            ) by {
                if i < upto - 1 {
                    assert(prev.contains(i as usize));
                    let k = choose|k: int| 0 <= k < prev.len() && prev[k] == i as usize;
                    assert(cur[k] == i as usize);
                } else {
                    assert(cur[prev.len() as int] == i as usize);
                }
            }
        }
    }
}

} // verus!
