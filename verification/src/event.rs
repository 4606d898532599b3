//! The event model: a tagged kind, the name of the source that produced
//! it, and a bag of string metadata with unique keys.

use vstd::prelude::*;
use vstd::string::*;

verus! {

/// `uuid::Uuid`, carried through as an opaque identifier.
#[verifier::external_type_specification]
#[verifier::external_body]
pub struct ExUuid(uuid::Uuid);

/// `std::time::Instant`, carried through as an opaque capture time.
#[verifier::external_type_specification]
#[verifier::external_body]
pub struct ExInstant(std::time::Instant);

/// `Uuid` is `Copy`: its clone is the same identifier.
pub assume_specification[ <uuid::Uuid as Clone>::clone ](id: &uuid::Uuid) -> (r: uuid::Uuid)
    ensures
        r == *id,
;

/// `Instant` is `Copy`: its clone is the same instant.
pub assume_specification[ <std::time::Instant as Clone>::clone ](at: &std::time::Instant) -> (r:
    std::time::Instant)
    ensures
        r == *at,
;

/// Calls `uuid::Uuid::new_v4`: a random identifier, of which nothing is
/// promised. The call panics where the system hands out no random bytes.
#[verifier::external_body]
pub(crate) fn fresh_id() -> uuid::Uuid {
    uuid::Uuid::new_v4()
}

/// Calls `std::time::Instant::now`: the current reading of the monotonic
/// clock, of which nothing is promised.
#[verifier::external_body]
pub(crate) fn capture_instant() -> std::time::Instant {
    std::time::Instant::now()
}

/// How a registry key or value changed.
#[derive(Debug, Clone, PartialEq, Eq)]
pub enum RegistryChangeType {
    Created,
    Modified,
    Deleted,
}

/// The transport protocol of a network connection.
#[derive(Debug, Clone, PartialEq, Eq)]
pub enum NetworkProtocol {
    Tcp,
    Udp,
    Other(String),
}

/// What happened. Paths are held as text.
#[derive(Debug, Clone, PartialEq, Eq)]
pub enum EventKind {
    FileCreated { path: String },
    FileModified { path: String },
    FileDeleted { path: String },
    FileRenamed { old_path: String, new_path: String },
    WindowCreated { hwnd: isize, title: String, process_id: u32 },
    WindowDestroyed { hwnd: isize },
    WindowFocused { hwnd: isize, title: String },
    WindowUnfocused { hwnd: isize, title: String },
    ProcessStarted {
        pid: u32,
        parent_pid: u32,
        name: String,
        path: String,
        command_line: String,
        session_id: u32,
        user: String,
    },
    ProcessStopped { pid: u32, name: String, exit_code: Option<u32> },
    ThreadCreated { pid: u32, tid: u32, start_address: u64, user_stack: Option<String> },
    ThreadDestroyed { pid: u32, tid: u32 },
    FileAccessed { pid: u32, path: String, access_mask: u32 },
    FileIoRead { pid: u32, path: String, bytes_read: u64 },
    FileIoWrite { pid: u32, path: String, bytes_written: u64 },
    FileIoDelete { pid: u32, path: String },
    NetworkConnectionCreated {
        pid: u32,
        local_addr: String,
        local_port: u16,
        remote_addr: String,
        remote_port: u16,
        protocol: NetworkProtocol,
    },
    NetworkConnectionClosed {
        pid: u32,
        local_addr: String,
        local_port: u16,
        remote_addr: String,
        remote_port: u16,
    },
    RegistryChanged {
        root: String,
        key: String,
        value_name: Option<String>,
        change_type: RegistryChangeType,
    },
    TimerTick,
}

impl EventKind {
    /// The name of the variant, as it labels metrics and script tables.
    pub open spec fn spec_name(&self) -> Seq<char> {
        match self {
            EventKind::FileCreated { .. } => "FileCreated"@,
            EventKind::FileModified { .. } => "FileModified"@,
            EventKind::FileDeleted { .. } => "FileDeleted"@,
            EventKind::FileRenamed { .. } => "FileRenamed"@,
            EventKind::WindowCreated { .. } => "WindowCreated"@,
            EventKind::WindowDestroyed { .. } => "WindowDestroyed"@,
            EventKind::WindowFocused { .. } => "WindowFocused"@,
            EventKind::WindowUnfocused { .. } => "WindowUnfocused"@,
            EventKind::ProcessStarted { .. } => "ProcessStarted"@,
            EventKind::ProcessStopped { .. } => "ProcessStopped"@,
            EventKind::ThreadCreated { .. } => "ThreadCreated"@,
            EventKind::ThreadDestroyed { .. } => "ThreadDestroyed"@,
            EventKind::FileAccessed { .. } => "FileAccessed"@,
            EventKind::FileIoRead { .. } => "FileIoRead"@,
            EventKind::FileIoWrite { .. } => "FileIoWrite"@,
            EventKind::FileIoDelete { .. } => "FileIoDelete"@,
            EventKind::NetworkConnectionCreated { .. } => "NetworkConnectionCreated"@,
            EventKind::NetworkConnectionClosed { .. } => "NetworkConnectionClosed"@,
            EventKind::RegistryChanged { .. } => "RegistryChanged"@,
            EventKind::TimerTick => "TimerTick"@,
        }
    }

    /// The name of the variant.
    pub fn name(&self) -> (r: String)
        ensures
            r@ == self.spec_name(),
    {
        match self {
            EventKind::FileCreated { .. } => String::from_str("FileCreated"),
            EventKind::FileModified { .. } => String::from_str("FileModified"),
            EventKind::FileDeleted { .. } => String::from_str("FileDeleted"),
            EventKind::FileRenamed { .. } => String::from_str("FileRenamed"),
            EventKind::WindowCreated { .. } => String::from_str("WindowCreated"),
            EventKind::WindowDestroyed { .. } => String::from_str("WindowDestroyed"),
            EventKind::WindowFocused { .. } => String::from_str("WindowFocused"),
            EventKind::WindowUnfocused { .. } => String::from_str("WindowUnfocused"),
            EventKind::ProcessStarted { .. } => String::from_str("ProcessStarted"),
            EventKind::ProcessStopped { .. } => String::from_str("ProcessStopped"),
            EventKind::ThreadCreated { .. } => String::from_str("ThreadCreated"),
            EventKind::ThreadDestroyed { .. } => String::from_str("ThreadDestroyed"),
            EventKind::FileAccessed { .. } => String::from_str("FileAccessed"),
            EventKind::FileIoRead { .. } => String::from_str("FileIoRead"),
            EventKind::FileIoWrite { .. } => String::from_str("FileIoWrite"),
            EventKind::FileIoDelete { .. } => String::from_str("FileIoDelete"),
            EventKind::NetworkConnectionCreated { .. } => String::from_str(
                "NetworkConnectionCreated",
            ),
            EventKind::NetworkConnectionClosed { .. } => String::from_str(
                "NetworkConnectionClosed",
            ),
            EventKind::RegistryChanged { .. } => String::from_str("RegistryChanged"),
            EventKind::TimerTick => String::from_str("TimerTick"),
        }
    }
}

/// Whether no key occurs twice among the entries.
pub open spec fn keys_unique(entries: Seq<(String, String)>) -> bool {
    forall|i: int, j: int|
        0 <= i < entries.len() && 0 <= j < entries.len() && i != j ==> (#[trigger] entries[i]).0@
            != (#[trigger] entries[j]).0@
}

/// Whether some entry has the key.
pub open spec fn has_key(entries: Seq<(String, String)>, key: Seq<char>) -> bool {
    exists|i: int| 0 <= i < entries.len() && (#[trigger] entries[i]).0@ == key
}

/// The place of an entry with the key.
pub open spec fn key_index(entries: Seq<(String, String)>, key: Seq<char>) -> int {
    choose|i: int| 0 <= i < entries.len() && (#[trigger] entries[i]).0@ == key
}

/// The mapping from keys to values that the entries stand for.
pub open spec fn entries_map(entries: Seq<(String, String)>) -> Map<Seq<char>, Seq<char>> {
    Map::new(
        |key: Seq<char>| has_key(entries, key),
        |key: Seq<char>| entries[key_index(entries, key)].1@,
    )
}

/// String metadata of an event: a mapping from key to value. No key
/// occurs twice; the order of the entries carries no meaning.
#[derive(Debug)]
pub struct Metadata {
    entries: Vec<(String, String)>,
}

impl Clone for Metadata {
    /// A copy that holds the same entries.
    fn clone(&self) -> (r: Self)
        ensures
            r@ == self@,
            r.spec_entries() == self.spec_entries(),
    {
        proof {
            use_type_invariant(self);
        }
        let mut entries: Vec<(String, String)> = Vec::new();
        let mut i: usize = 0;
        while i < self.entries.len()
            invariant
                i <= self.entries@.len(),
                entries@ == self.entries@.subrange(0, i as int),
            decreases self.entries@.len() - i,
        {
            entries.push((self.entries[i].0.clone(), self.entries[i].1.clone()));
            i = i + 1;
            assert(entries@ =~= self.entries@.subrange(0, i as int));
        }
        assert(entries@ =~= self.entries@);
        Metadata { entries }
    }
}

impl View for Metadata {
    type V = Map<Seq<char>, Seq<char>>;

    closed spec fn view(&self) -> Map<Seq<char>, Seq<char>> {
        entries_map(self.entries@)
    }
}

impl Metadata {
    #[verifier::type_invariant]
    closed spec fn well_formed(&self) -> bool {
        keys_unique(self.entries@)
    }

    /// The entries behind the mapping, in the order they are held.
    pub closed spec fn spec_entries(&self) -> Seq<(String, String)> {
        self.entries@
    }

    /// The empty mapping.
    pub fn new() -> (r: Self)
        ensures
            r@ == Map::<Seq<char>, Seq<char>>::empty(),
            r.spec_entries().len() == 0,
    {
        let r = Metadata { entries: Vec::new() };
        assert(r@ =~= Map::<Seq<char>, Seq<char>>::empty());
        r
    }

    /// The number of keys.
    pub fn len(&self) -> (n: usize)
        ensures
            n == self.spec_entries().len(),
    {
        self.entries.len()
    }

    fn position(&self, key: &str) -> (r: Option<usize>)
        ensures
            r is None <==> !has_key(self.entries@, key@),
            r matches Some(i) ==> i < self.entries@.len() && self.entries@[i as int].0@ == key@,
    {
        let mut i: usize = 0;
        while i < self.entries.len()
            invariant
                i <= self.entries@.len(),
                forall|k: int| 0 <= k < i ==> (#[trigger] self.entries@[k]).0@ != key@,
            decreases self.entries@.len() - i,
        {
            if crate::text::str_eq(self.entries[i].0.as_str(), key) {
                return Some(i);
            }
            i = i + 1;
        }
        None
    }

    /// Whether the key is bound.
    pub fn contains_key(&self, key: &str) -> (r: bool)
        ensures
            r == self@.dom().contains(key@),
    {
        self.position(key).is_some()
    }

    /// The value bound to the key, if any.
    pub fn get(&self, key: &str) -> (r: Option<&String>)
        ensures
            r is Some <==> self@.dom().contains(key@),
            r matches Some(v) ==> v@ == self@[key@],
    {
        proof {
            use_type_invariant(self);
        }
        match self.position(key) {
            Some(i) => {
                proof {
                    let chosen = key_index(self.entries@, key@);
                    assert(self.entries@[chosen].0@ == key@);
                    assert(chosen == i);
                }
                Some(&self.entries[i].1)
            },
            None => None,
        }
    }

    /// Binds the key to the value, replacing what was bound before.
    pub fn insert(&mut self, key: String, value: String)
        ensures
            final(self)@ == old(self)@.insert(key@, value@),
    {
        proof {
            use_type_invariant(&*self);
        }
        let ghost before = self.entries@;
        let found = self.position(key.as_str());
        let mut entries: Vec<(String, String)> = Vec::new();
        std::mem::swap(&mut self.entries, &mut entries);
        match found {
            Some(i) => {
                entries.set(i, (key, value));
                proof {
                    let after = entries@;
                    assert(keys_unique(after)) by {
                        assert forall|a: int, b: int|
                            0 <= a < after.len() && 0 <= b < after.len() && a != b implies (
                        #[trigger] after[a]).0@ != (#[trigger] after[b]).0@ by {
                            assert(after[a].0@ == before[a].0@);
                            assert(after[b].0@ == before[b].0@);
                        }
                    }
                    lemma_update_entry(before, i as int, key, value);
                }
            },
            None => {
                entries.push((key, value));
                proof {
                    lemma_push_entry(before, key, value);
                }
            },
        }
        std::mem::swap(&mut self.entries, &mut entries);
    }

    /// The entries as pairs of key and value, no key twice.
    pub fn entries(&self) -> (r: &Vec<(String, String)>)
        ensures
            r@ == self.spec_entries(),
            keys_unique(r@),
            entries_map(r@) == self@,
    {
        proof {
            use_type_invariant(self);
        }
        &self.entries
    }
}

/// Replacing the value of a held key changes the mapping at that key only.
proof fn lemma_update_entry(before: Seq<(String, String)>, i: int, key: String, value: String)
    requires
        keys_unique(before),
        0 <= i < before.len(),
        before[i].0@ == key@,
    ensures
        entries_map(before.update(i, (key, value))) == entries_map(before).insert(key@, value@),
{
    let after = before.update(i, (key, value));
    let lhs = entries_map(after);
    let rhs = entries_map(before).insert(key@, value@);
    assert forall|k: Seq<char>| lhs.dom().contains(k) <==> rhs.dom().contains(k) by {
        if has_key(after, k) {
            let a = key_index(after, k);
            assert(before[a].0@ == after[a].0@);
        }
        if has_key(before, k) {
            let b = key_index(before, k);
            assert(after[b].0@ == before[b].0@);
        }
        if k == key@ {
            assert(after[i].0@ == k);
        }
    }
    assert forall|k: Seq<char>| lhs.dom().contains(k) implies lhs[k] == rhs[k] by {
        let a = key_index(after, k);
        assert(after[a].0@ == k);
        assert(before[a].0@ == k);
        if k == key@ {
            assert(a == i);
        } else {
            let b = key_index(before, k);
            assert(before[b].0@ == k);
            assert(a == b);
        }
    }
    assert(lhs =~= rhs);
}

/// Adding an entry under a key that is not held binds that key and leaves
/// the rest alone.
proof fn lemma_push_entry(before: Seq<(String, String)>, key: String, value: String)
    requires
        keys_unique(before),
        !has_key(before, key@),
    ensures
        keys_unique(before.push((key, value))),
        entries_map(before.push((key, value))) == entries_map(before).insert(key@, value@),
{
    let after = before.push((key, value));
    assert forall|a: int, b: int|
        0 <= a < after.len() && 0 <= b < after.len() && a != b implies (#[trigger] after[a]).0@ != (
    #[trigger] after[b]).0@ by {
        if a < before.len() {
            assert(after[a] == before[a]);
        }
        if b < before.len() {
            assert(after[b] == before[b]);
        }
    }
    let lhs = entries_map(after);
    let rhs = entries_map(before).insert(key@, value@);
    assert forall|k: Seq<char>| lhs.dom().contains(k) <==> rhs.dom().contains(k) by {
        if has_key(after, k) {
            let a = key_index(after, k);
            if a < before.len() {
                assert(before[a].0@ == k);
            }
        }
        if has_key(before, k) {
            let b = key_index(before, k);
            assert(after[b].0@ == k);
        }
        if k == key@ {
            assert(after[before.len() as int].0@ == k);
        }
    }
    assert forall|k: Seq<char>| lhs.dom().contains(k) implies lhs[k] == rhs[k] by {
        let a = key_index(after, k);
        assert(after[a].0@ == k);
        if k == key@ {
            assert(after[before.len() as int].0@ == k);
            assert(a == before.len());
        } else {
            assert(a < before.len());
            assert(before[a] == after[a]);
            let b = key_index(before, k);
            assert(before[b].0@ == k);
            assert(after[b] == before[b]);
            assert(a == b);
        }
    }
    assert(lhs =~= rhs);
}

/// One observed signal. It is not changed after it is built.
#[derive(Debug, Clone)]
pub struct Event {
    pub id: uuid::Uuid,
    pub timestamp: std::time::Instant,
    pub kind: EventKind,
    pub source: String,
    pub metadata: Metadata,
}

impl Event {
    /// An event of the given kind and source with the given identifier and
    /// capture time, and no metadata.
    pub fn from_parts(
        id: uuid::Uuid,
        timestamp: std::time::Instant,
        kind: EventKind,
        source: &str,
    ) -> (r: Self)
        ensures
            r.id == id,
            r.timestamp == timestamp,
            r.kind == kind,
            r.source@ == source@,
            r.metadata@ == Map::<Seq<char>, Seq<char>>::empty(),
    {
        Event { id, timestamp, kind, source: String::from_str(source), metadata: Metadata::new() }
    }

    /// An event of the given kind and source, with a fresh random
    /// identifier, the current instant as capture time, and no metadata.
    pub fn new(kind: EventKind, source: &str) -> (r: Self)
        ensures
            r.kind == kind,
            r.source@ == source@,
            r.metadata@ == Map::<Seq<char>, Seq<char>>::empty(),
    {
        Event::from_parts(fresh_id(), capture_instant(), kind, source)
    }

    /// The same event with `key` bound to `value` in its metadata.
    pub fn with_metadata(self, key: &str, value: &str) -> (r: Self)
        ensures
            r.id == self.id,
            r.timestamp == self.timestamp,
            r.kind == self.kind,
            r.source == self.source,
            r.metadata@ == self.metadata@.insert(key@, value@),
    {
        let mut event = self;
        event.metadata.insert(String::from_str(key), String::from_str(value));
        event
    }
}

} // verus!
