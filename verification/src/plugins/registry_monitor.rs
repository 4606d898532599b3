//! The registry monitor: what a registry trace record means, which keys
//! are watched, and which events the records become.

use crate::event::{Event, EventKind, RegistryChangeType};
use crate::plugin::{Lifecycle, PluginError, StartDecision};
use crate::plugins::process_monitor::{
    is_session_error, is_session_name, rest, session_error, text_or, unique_session_name,
};
use crate::plugins::wire::{
    decode_units, le_u32, nth_text, read_u32, runs_of, split_texts, tail,
    take_until_null, text_at, texts_of, units_of, until_null,
};
use crate::text::{
    concat2, concat3, decimal, from_utf16_lossy, is_prefix, lowercase, opt_text, starts_with,
    str_eq, to_lowercase, u64_to_string, utf16_lossy,
};
use vstd::prelude::*;
use vstd::string::*;

verus! {

/// The trace provider for registry events.
pub const KERNEL_REGISTRY_PROVIDER: u128 = 0xae5373a1_6483_4880_93b1_5a80e74a4d5e;

pub const EVENT_REG_CREATE_KEY: u16 = 1;

pub const EVENT_REG_OPEN_KEY: u16 = 2;

pub const EVENT_REG_DELETE_KEY: u16 = 3;

pub const EVENT_REG_SET_VALUE: u16 = 5;

pub const EVENT_REG_DELETE_VALUE: u16 = 6;

/// A registry trace record, parsed.
#[derive(Debug, Clone)]
pub enum EtwEvent {
    RegistryKeyCreated { process_id: u32, thread_id: u32, key_path: String, status: u32 },
    RegistryKeyDeleted { process_id: u32, thread_id: u32, key_path: String, status: u32 },
    RegistryValueSet {
        process_id: u32,
        thread_id: u32,
        key_path: String,
        value_name: String,
        data_type: u32,
        data_size: u32,
    },
    RegistryValueDeleted { process_id: u32, thread_id: u32, key_path: String, value_name: String },
    RegistryKeyOpened { process_id: u32, thread_id: u32, key_path: String, desired_access: u32 },
}

/// A root of the registry.
#[derive(Debug, Clone, Copy, PartialEq, Eq, Structural)]
#[allow(non_camel_case_types)]
pub enum RegistryRoot {
    HKEY_LOCAL_MACHINE,
    HKEY_CURRENT_USER,
    HKEY_USERS,
    HKEY_CURRENT_CONFIG,
}

impl RegistryRoot {
    /// The short name of the root.
    pub open spec fn spec_to_string(&self) -> Seq<char> {
        match self {
            RegistryRoot::HKEY_LOCAL_MACHINE => "HKLM"@,
            RegistryRoot::HKEY_CURRENT_USER => "HKCU"@,
            RegistryRoot::HKEY_USERS => "HKU"@,
            RegistryRoot::HKEY_CURRENT_CONFIG => "HKCC"@,
        }
    }

    /// The short name of the root.
    pub fn to_string(&self) -> (r: String)
        ensures
            r@ == self.spec_to_string(),
    {
        match self {
            RegistryRoot::HKEY_LOCAL_MACHINE => String::from_str("HKLM"),
            RegistryRoot::HKEY_CURRENT_USER => String::from_str("HKCU"),
            RegistryRoot::HKEY_USERS => String::from_str("HKU"),
            RegistryRoot::HKEY_CURRENT_CONFIG => String::from_str("HKCC"),
        }
    }

    /// The full name of the root.
    pub open spec fn spec_to_full_name(&self) -> Seq<char> {
        match self {
            RegistryRoot::HKEY_LOCAL_MACHINE => "HKEY_LOCAL_MACHINE"@,
            RegistryRoot::HKEY_CURRENT_USER => "HKEY_CURRENT_USER"@,
            RegistryRoot::HKEY_USERS => "HKEY_USERS"@,
            RegistryRoot::HKEY_CURRENT_CONFIG => "HKEY_CURRENT_CONFIG"@,
        }
    }

    /// The full name of the root.
    pub fn to_full_name(&self) -> (r: String)
        ensures
            r@ == self.spec_to_full_name(),
    {
        match self {
            RegistryRoot::HKEY_LOCAL_MACHINE => String::from_str("HKEY_LOCAL_MACHINE"),
            RegistryRoot::HKEY_CURRENT_USER => String::from_str("HKEY_CURRENT_USER"),
            RegistryRoot::HKEY_USERS => String::from_str("HKEY_USERS"),
            RegistryRoot::HKEY_CURRENT_CONFIG => String::from_str("HKEY_CURRENT_CONFIG"),
        }
    }

    /// The root that a short name stands for: `HKLM`, `HKCU`, `HKU` or
    /// `HKCC`; other texts stand for none.
    pub open spec fn spec_parse(text: Seq<char>) -> Option<RegistryRoot> {
        if text == "HKLM"@ {
            Some(RegistryRoot::HKEY_LOCAL_MACHINE)
        } else if text == "HKCU"@ {
            Some(RegistryRoot::HKEY_CURRENT_USER)
        } else if text == "HKU"@ {
            Some(RegistryRoot::HKEY_USERS)
        } else if text == "HKCC"@ {
            Some(RegistryRoot::HKEY_CURRENT_CONFIG)
        } else {
            None
        }
    }

    /// The root that a short name stands for.
    pub fn parse(text: &str) -> (r: Option<RegistryRoot>)
        ensures
            r == Self::spec_parse(text@),
    {
        if str_eq(text, "HKLM") {
            Some(RegistryRoot::HKEY_LOCAL_MACHINE)
        } else if str_eq(text, "HKCU") {
            Some(RegistryRoot::HKEY_CURRENT_USER)
        } else if str_eq(text, "HKU") {
            Some(RegistryRoot::HKEY_USERS)
        } else if str_eq(text, "HKCC") {
            Some(RegistryRoot::HKEY_CURRENT_CONFIG)
        } else {
            None
        }
    }
}

/// A key to watch.
#[derive(Debug, Clone)]
pub struct RegistryKeyConfig {
    pub root: RegistryRoot,
    pub path: String,
    pub watch_tree: bool,
}

impl RegistryKeyConfig {
    /// The watched key as it is compared: the root's full name, a
    /// backslash and the path, all in lower case.
    pub open spec fn spec_filter_path(&self) -> Seq<char> {
        lowercase(self.root.spec_to_full_name() + "\\"@ + self.path@)
    }

    /// The watched key as it is compared.
    pub fn filter_path(&self) -> (r: String)
        ensures
            r@ == self.spec_filter_path(),
    {
        let root = self.root.to_full_name();
        let full = concat3(root.as_str(), "\\", self.path.as_str());
        to_lowercase(full.as_str())
    }

    /// Whether a changed key, in lower case, falls under this watch. A
    /// watch on a tree takes the keys below the watched key and those
    /// above it; a plain watch takes the watched key and what lies
    /// directly or further below it.
    pub open spec fn covers(&self, key: Seq<char>) -> bool {
        let filter = self.spec_filter_path();
        if self.watch_tree {
            is_prefix(filter, key) || is_prefix(key, filter)
        } else {
            key == filter || is_prefix(filter + "\\"@, key)
        }
    }

    fn check(&self, key: &str) -> (r: bool)
        ensures
            r == self.covers(key@),
    {
        let filter = self.filter_path();
        if self.watch_tree {
            starts_with(key, filter.as_str()) || starts_with(filter.as_str(), key)
        } else {
            if str_eq(key, filter.as_str()) {
                true
            } else {
                let below = concat2(filter.as_str(), "\\");
                starts_with(key, below.as_str())
            }
        }
    }
}

/// The text up to the first null unit, where it is not empty; nothing for
/// fewer than two bytes.
pub open spec fn one_text(data: Seq<u8>) -> Option<Seq<char>> {
    if data.len() < 2 {
        None
    } else {
        let units = until_null(units_of(data));
        if units.len() > 0 {
            Some(utf16_lossy(units))
        } else {
            None
        }
    }
}

/// The text up to the first null unit.
pub fn extract_unicode_string(data: &[u8]) -> (r: Option<String>)
    ensures
        opt_text(r) == one_text(data@),
{
    if data.len() < 2 {
        return None;
    }
    let units = decode_units(data);
    let chars = take_until_null(&units);
    if chars.len() > 0 {
        Some(from_utf16_lossy(&chars))
    } else {
        None
    }
}

/// The first two texts that stand in the bytes between null units.
pub open spec fn two_texts(data: Seq<u8>) -> (Option<Seq<char>>, Option<Seq<char>>) {
    let texts = texts_of(runs_of(units_of(data)));
    (text_at(texts, 0), text_at(texts, 1))
}

/// The first two texts that stand in the bytes between null units.
pub fn extract_two_unicode_strings(data: &[u8]) -> (r: (Option<String>, Option<String>))
    ensures
        opt_text(r.0) == two_texts(data@).0,
        opt_text(r.1) == two_texts(data@).1,
{
    let units = decode_units(data);
    let texts = split_texts(&units);
    (nth_text(&texts, 0), nth_text(&texts, 1))
}

/// A record about a key: a 32-bit integer at offset 0 and the key path
/// from offset 8; a missing path is empty.
pub open spec fn key_fields(data: Seq<u8>) -> Option<(u32, Seq<char>)> {
    if data.len() < 8 {
        None
    } else {
        Some((le_u32(data, 0), text_or(one_text(rest(data, 8)), Seq::empty())))
    }
}

fn read_key_fields(data: &[u8]) -> (r: Option<(u32, String)>)
    ensures
        r is Some <==> key_fields(data@) is Some,
        r matches Some((number, path)) ==> key_fields(data@) == Some((number, path@)),
{
    if data.len() < 8 {
        return None;
    }
    let number = read_u32(data, 0);
    let path = match extract_unicode_string(tail(data, 8)) {
        Some(p) => p,
        None => String::new(),
    };
    Some((number, path))
}

/// Whether `r` is what a key creation record parses to.
pub open spec fn is_create_key(data: Seq<u8>, pid: u32, tid: u32, r: Option<EtwEvent>) -> bool {
    match key_fields(data) {
        None => r is None,
        Some((number, path)) => r matches Some(
            EtwEvent::RegistryKeyCreated { process_id, thread_id, key_path, status },
        ) && process_id == pid && thread_id == tid && key_path@ == path && status == number,
    }
}

/// Whether `r` is what a key deletion record parses to.
pub open spec fn is_delete_key(data: Seq<u8>, pid: u32, tid: u32, r: Option<EtwEvent>) -> bool {
    match key_fields(data) {
        None => r is None,
        Some((number, path)) => r matches Some(
            EtwEvent::RegistryKeyDeleted { process_id, thread_id, key_path, status },
        ) && process_id == pid && thread_id == tid && key_path@ == path && status == number,
    }
}

/// Whether `r` is what a key opening record parses to.
pub open spec fn is_open_key(data: Seq<u8>, pid: u32, tid: u32, r: Option<EtwEvent>) -> bool {
    match key_fields(data) {
        None => r is None,
        Some((number, path)) => r matches Some(
            EtwEvent::RegistryKeyOpened { process_id, thread_id, key_path, desired_access },
        ) && process_id == pid && thread_id == tid && key_path@ == path && desired_access
            == number,
    }
}

/// Whether `r` is what a record of a value being set parses to: type and
/// size of the data at offsets 0 and 4, key path and value name from
/// offset 16.
pub open spec fn is_set_value(data: Seq<u8>, pid: u32, tid: u32, r: Option<EtwEvent>) -> bool {
    if data.len() < 16 {
        r is None
    } else {
        &&& r matches Some(
            EtwEvent::RegistryValueSet {
                process_id,
                thread_id,
                key_path,
                value_name,
                data_type,
                data_size,
            },
        )
        &&& process_id == pid
        &&& thread_id == tid
        &&& data_type == le_u32(data, 0)
        &&& data_size == le_u32(data, 4)
        &&& key_path@ == text_or(two_texts(rest(data, 16)).0, Seq::empty())
        &&& value_name@ == text_or(two_texts(rest(data, 16)).1, Seq::empty())
    }
}

/// Whether `r` is what a record of a value being deleted parses to: key
/// path and value name from offset 4.
pub open spec fn is_delete_value(data: Seq<u8>, pid: u32, tid: u32, r: Option<EtwEvent>) -> bool {
    if data.len() < 4 {
        r is None
    } else {
        &&& r matches Some(
            EtwEvent::RegistryValueDeleted { process_id, thread_id, key_path, value_name },
        )
        &&& process_id == pid
        &&& thread_id == tid
        &&& key_path@ == text_or(two_texts(rest(data, 4)).0, Seq::empty())
        &&& value_name@ == text_or(two_texts(rest(data, 4)).1, Seq::empty())
    }
}

/// Parses a key creation record.
pub fn parse_create_key(data: &[u8], process_id: u32, thread_id: u32) -> (r: Option<EtwEvent>)
    ensures
        is_create_key(data@, process_id, thread_id, r),
{
    match read_key_fields(data) {
        Some((status, key_path)) => Some(
            EtwEvent::RegistryKeyCreated { process_id, thread_id, key_path, status },
        ),
        None => None,
    }
}

/// Parses a key deletion record.
pub fn parse_delete_key(data: &[u8], process_id: u32, thread_id: u32) -> (r: Option<EtwEvent>)
    ensures
        is_delete_key(data@, process_id, thread_id, r),
{
    match read_key_fields(data) {
        Some((status, key_path)) => Some(
            EtwEvent::RegistryKeyDeleted { process_id, thread_id, key_path, status },
        ),
        None => None,
    }
}

/// Parses a key opening record.
pub fn parse_open_key(data: &[u8], process_id: u32, thread_id: u32) -> (r: Option<EtwEvent>)
    ensures
        is_open_key(data@, process_id, thread_id, r),
{
    match read_key_fields(data) {
        Some((desired_access, key_path)) => Some(
            EtwEvent::RegistryKeyOpened { process_id, thread_id, key_path, desired_access },
        ),
        None => None,
    }
}

fn texts_from(data: &[u8], from: usize) -> (r: (String, String))
    requires
        from <= data@.len(),
    ensures
        r.0@ == text_or(two_texts(rest(data@, from as int)).0, Seq::empty()),
        r.1@ == text_or(two_texts(rest(data@, from as int)).1, Seq::empty()),
{
    let (first, second) = extract_two_unicode_strings(tail(data, from));
    let a = match first {
        Some(t) => t,
        None => String::new(),
    };
    let b = match second {
        Some(t) => t,
        None => String::new(),
    };
    (a, b)
}

/// Parses a record of a value being set.
pub fn parse_set_value(data: &[u8], process_id: u32, thread_id: u32) -> (r: Option<EtwEvent>)
    ensures
        is_set_value(data@, process_id, thread_id, r),
{
    if data.len() < 16 {
        return None;
    }
    let data_type = read_u32(data, 0);
    let data_size = read_u32(data, 4);
    let (key_path, value_name) = texts_from(data, 16);
    Some(
        EtwEvent::RegistryValueSet {
            process_id,
            thread_id,
            key_path,
            value_name,
            data_type,
            data_size,
        },
    )
}

/// Parses a record of a value being deleted.
pub fn parse_delete_value(data: &[u8], process_id: u32, thread_id: u32) -> (r: Option<EtwEvent>)
    ensures
        is_delete_value(data@, process_id, thread_id, r),
{
    if data.len() < 4 {
        return None;
    }
    let (key_path, value_name) = texts_from(data, 4);
    Some(EtwEvent::RegistryValueDeleted { process_id, thread_id, key_path, value_name })
}

/// Whether `r` is what a record of the given provider and number parses
/// to. Records of other providers and numbers parse to nothing.
pub open spec fn is_parsed(
    provider: u128,
    id: u16,
    pid: u32,
    tid: u32,
    data: Seq<u8>,
    r: Option<EtwEvent>,
) -> bool {
    if provider != KERNEL_REGISTRY_PROVIDER {
        r is None
    } else if id == EVENT_REG_CREATE_KEY {
        is_create_key(data, pid, tid, r)
    } else if id == EVENT_REG_DELETE_KEY {
        is_delete_key(data, pid, tid, r)
    } else if id == EVENT_REG_SET_VALUE {
        is_set_value(data, pid, tid, r)
    } else if id == EVENT_REG_DELETE_VALUE {
        is_delete_value(data, pid, tid, r)
    } else if id == EVENT_REG_OPEN_KEY {
        is_open_key(data, pid, tid, r)
    } else {
        r is None
    }
}

/// Parses a registry trace record: `provider` is the provider's
/// identifier as a number, `id` the number of the event, `process_id` and
/// `thread_id` come from the record's header, `data` is its user data.
pub fn parse_etw_event(provider: u128, id: u16, process_id: u32, thread_id: u32, data: &[u8]) -> (r:
    Option<EtwEvent>)
    ensures
        is_parsed(provider, id, process_id, thread_id, data@, r),
{
    if provider != KERNEL_REGISTRY_PROVIDER {
        None
    } else if id == EVENT_REG_CREATE_KEY {
        parse_create_key(data, process_id, thread_id)
    } else if id == EVENT_REG_DELETE_KEY {
        parse_delete_key(data, process_id, thread_id)
    } else if id == EVENT_REG_SET_VALUE {
        parse_set_value(data, process_id, thread_id)
    } else if id == EVENT_REG_DELETE_VALUE {
        parse_delete_value(data, process_id, thread_id)
    } else if id == EVENT_REG_OPEN_KEY {
        parse_open_key(data, process_id, thread_id)
    } else {
        None
    }
}

/// The short name of the root that a key path starts with, `UNKNOWN`
/// where it starts with none.
pub open spec fn root_of(path: Seq<char>) -> Seq<char> {
    if is_prefix("HKEY_LOCAL_MACHINE"@, path) {
        "HKLM"@
    } else if is_prefix("HKEY_CURRENT_USER"@, path) {
        "HKCU"@
    } else if is_prefix("HKEY_USERS"@, path) {
        "HKU"@
    } else if is_prefix("HKEY_CURRENT_CONFIG"@, path) {
        "HKCC"@
    } else if is_prefix("HKEY_CLASSES_ROOT"@, path) {
        "HKCR"@
    } else {
        "UNKNOWN"@
    }
}

/// The short name of the root that a key path starts with.
pub fn extract_root_from_path(path: &str) -> (r: String)
    ensures
        r@ == root_of(path@),
{
    if starts_with(path, "HKEY_LOCAL_MACHINE") {
        String::from_str("HKLM")
    } else if starts_with(path, "HKEY_CURRENT_USER") {
        String::from_str("HKCU")
    } else if starts_with(path, "HKEY_USERS") {
        String::from_str("HKU")
    } else if starts_with(path, "HKEY_CURRENT_CONFIG") {
        String::from_str("HKCC")
    } else if starts_with(path, "HKEY_CLASSES_ROOT") {
        String::from_str("HKCR")
    } else {
        String::from_str("UNKNOWN")
    }
}

/// The key path of a record.
pub open spec fn key_path_of(record: EtwEvent) -> Seq<char> {
    match record {
        EtwEvent::RegistryKeyCreated { key_path, .. } => key_path@,
        EtwEvent::RegistryKeyDeleted { key_path, .. } => key_path@,
        EtwEvent::RegistryValueSet { key_path, .. } => key_path@,
        EtwEvent::RegistryValueDeleted { key_path, .. } => key_path@,
        EtwEvent::RegistryKeyOpened { key_path, .. } => key_path@,
    }
}

/// Whether `kind` is the event kind that a record of a change becomes:
/// a registry change at the record's key, under the root that the key
/// path starts with, with the value's name where the record is about a
/// value. Setting a value counts as a modification.
pub open spec fn is_kind_of(record: EtwEvent, kind: EventKind) -> bool {
    &&& kind matches EventKind::RegistryChanged { root, key, value_name, change_type }
    &&& root@ == root_of(key_path_of(record))
    &&& key@ == key_path_of(record)
    &&& match record {
        EtwEvent::RegistryKeyCreated { .. } => value_name is None && change_type is Created,
        EtwEvent::RegistryKeyDeleted { .. } => value_name is None && change_type is Deleted,
        EtwEvent::RegistryValueSet { value_name: v, .. } => opt_text(value_name) == Some(v@)
            && change_type is Modified,
        EtwEvent::RegistryValueDeleted { value_name: v, .. } => opt_text(value_name) == Some(v@)
            && change_type is Deleted,
        EtwEvent::RegistryKeyOpened { .. } => false,
    }
}

/// The metadata of the event that a record becomes. `process` is the name
/// of the record's process as it was looked up.
pub open spec fn metadata_of(record: EtwEvent, process: Seq<char>) -> Map<Seq<char>, Seq<char>> {
    let base = Map::<Seq<char>, Seq<char>>::empty().insert("process_name"@, process);
    match record {
        EtwEvent::RegistryKeyCreated { process_id, status, .. } => base.insert(
            "process_id"@,
            decimal(process_id as nat),
        ).insert("status"@, decimal(status as nat)),
        EtwEvent::RegistryKeyDeleted { process_id, status, .. } => base.insert(
            "process_id"@,
            decimal(process_id as nat),
        ).insert("status"@, decimal(status as nat)),
        EtwEvent::RegistryValueSet { process_id, value_name, data_type, data_size, .. } => base.insert(
            "process_id"@,
            decimal(process_id as nat),
        ).insert("value_name"@, value_name@).insert("data_type"@, decimal(data_type as nat)).insert(
            "data_size"@,
            decimal(data_size as nat),
        ),
        EtwEvent::RegistryValueDeleted { process_id, value_name, .. } => base.insert(
            "process_id"@,
            decimal(process_id as nat),
        ).insert("value_name"@, value_name@),
        EtwEvent::RegistryKeyOpened { .. } => base,
    }
}

/// The event that a record becomes, from the plugin named `source`; a
/// record of a key being opened becomes none. `process` is the name of
/// the record's process as it was looked up.
pub fn to_event(record: &EtwEvent, source: &str, process: &str) -> (r: Option<Event>)
    ensures
        r is None <==> record is RegistryKeyOpened,
        r matches Some(e) ==> e.source@ == source@ && is_kind_of(*record, e.kind) && e.metadata@
            == metadata_of(*record, process@),
{
    match record {
        EtwEvent::RegistryKeyCreated { process_id, thread_id: _, key_path, status } => {
            let kind = EventKind::RegistryChanged {
                root: extract_root_from_path(key_path.as_str()),
                key: key_path.clone(),
                value_name: None,
                change_type: RegistryChangeType::Created,
            };
            let pid = u64_to_string(*process_id as u64);
            let code = u64_to_string(*status as u64);
            Some(
                Event::new(kind, source).with_metadata("process_name", process).with_metadata(
                    "process_id",
                    pid.as_str(),
                ).with_metadata("status", code.as_str()),
            )
        },
        EtwEvent::RegistryKeyDeleted { process_id, thread_id: _, key_path, status } => {
            let kind = EventKind::RegistryChanged {
                root: extract_root_from_path(key_path.as_str()),
                key: key_path.clone(),
                value_name: None,
                change_type: RegistryChangeType::Deleted,
            };
            let pid = u64_to_string(*process_id as u64);
            let code = u64_to_string(*status as u64);
            Some(
                Event::new(kind, source).with_metadata("process_name", process).with_metadata(
                    "process_id",
                    pid.as_str(),
                ).with_metadata("status", code.as_str()),
            )
        },
        EtwEvent::RegistryValueSet {
            process_id,
            thread_id: _,
            key_path,
            value_name,
            data_type,
            data_size,
        } => {
            let kind = EventKind::RegistryChanged {
                root: extract_root_from_path(key_path.as_str()),
                key: key_path.clone(),
                value_name: Some(value_name.clone()),
                change_type: RegistryChangeType::Modified,
            };
            let pid = u64_to_string(*process_id as u64);
            let kind_text = u64_to_string(*data_type as u64);
            let size_text = u64_to_string(*data_size as u64);
            Some(
                Event::new(kind, source).with_metadata("process_name", process).with_metadata(
                    "process_id",
                    pid.as_str(),
                ).with_metadata("value_name", value_name.as_str()).with_metadata(
                    "data_type",
                    kind_text.as_str(),
                ).with_metadata("data_size", size_text.as_str()),
            )
        },
        EtwEvent::RegistryValueDeleted { process_id, thread_id: _, key_path, value_name } => {
            let kind = EventKind::RegistryChanged {
                root: extract_root_from_path(key_path.as_str()),
                key: key_path.clone(),
                value_name: Some(value_name.clone()),
                change_type: RegistryChangeType::Deleted,
            };
            let pid = u64_to_string(*process_id as u64);
            Some(
                Event::new(kind, source).with_metadata("process_name", process).with_metadata(
                    "process_id",
                    pid.as_str(),
                ).with_metadata("value_name", value_name.as_str()),
            )
        },
        EtwEvent::RegistryKeyOpened { .. } => None,
    }
}

/// The key path of a record.
pub fn key_path(record: &EtwEvent) -> (r: &String)
    ensures
        r@ == key_path_of(*record),
{
    match record {
        EtwEvent::RegistryKeyCreated { key_path, .. } => key_path,
        EtwEvent::RegistryKeyDeleted { key_path, .. } => key_path,
        EtwEvent::RegistryValueSet { key_path, .. } => key_path,
        EtwEvent::RegistryValueDeleted { key_path, .. } => key_path,
        EtwEvent::RegistryKeyOpened { key_path, .. } => key_path,
    }
}

/// The process that a record is about.
pub fn record_pid(record: &EtwEvent) -> (r: u32)
    ensures
        r == match *record {
            EtwEvent::RegistryKeyCreated { process_id, .. } => process_id,
            EtwEvent::RegistryKeyDeleted { process_id, .. } => process_id,
            EtwEvent::RegistryValueSet { process_id, .. } => process_id,
            EtwEvent::RegistryValueDeleted { process_id, .. } => process_id,
            EtwEvent::RegistryKeyOpened { process_id, .. } => process_id,
        },
{
    match record {
        EtwEvent::RegistryKeyCreated { process_id, .. } => *process_id,
        EtwEvent::RegistryKeyDeleted { process_id, .. } => *process_id,
        EtwEvent::RegistryValueSet { process_id, .. } => *process_id,
        EtwEvent::RegistryValueDeleted { process_id, .. } => *process_id,
        EtwEvent::RegistryKeyOpened { process_id, .. } => *process_id,
    }
}

/// Whether one of the watches covers the key, in lower case.
pub open spec fn some_covers(keys: Seq<RegistryKeyConfig>, key: Seq<char>) -> bool {
    exists|i: int| 0 <= i < keys.len() && (#[trigger] keys[i]).covers(key)
}

/// The registry monitor as it is configured.
#[derive(Debug, Clone)]
pub struct RegistryMonitorPlugin {
    pub name: String,
    pub keys: Vec<RegistryKeyConfig>,
    pub session_name: String,
    pub state: Lifecycle,
}

impl RegistryMonitorPlugin {
    /// A stopped monitor that watches no key yet, with a session name of
    /// its own.
    pub fn new(name: &str) -> (r: Self)
        ensures
            r.name@ == name@,
            r.keys@.len() == 0,
            !r.state.spec_is_running(),
            is_session_name("wee_reg_"@, name@, r.session_name@),
    {
        RegistryMonitorPlugin {
            name: String::from_str(name),
            keys: Vec::new(),
            session_name: unique_session_name("wee_reg_", name),
            state: Lifecycle::Stopped,
        }
    }

    fn watch(self, root: RegistryRoot, path: &str, watch_tree: bool) -> (r: Self)
        ensures
            r.name == self.name,
            r.session_name == self.session_name,
            r.state == self.state,
            r.keys@.len() == self.keys@.len() + 1,
            r.keys@.subrange(0, self.keys@.len() as int) == self.keys@,
            r.keys@.last().root == root,
            r.keys@.last().path@ == path@,
            r.keys@.last().watch_tree == watch_tree,
    {
        let mut plugin = self;
        plugin.keys.push(RegistryKeyConfig { root, path: String::from_str(path), watch_tree });
        assert(plugin.keys@.subrange(0, self.keys@.len() as int) =~= self.keys@);
        plugin
    }

    /// The same monitor, watching one more key.
    pub fn watch_key(self, root: RegistryRoot, path: &str) -> (r: Self)
        ensures
            r.name == self.name,
            r.session_name == self.session_name,
            r.state == self.state,
            r.keys@.len() == self.keys@.len() + 1,
            r.keys@.subrange(0, self.keys@.len() as int) == self.keys@,
            r.keys@.last().root == root,
            r.keys@.last().path@ == path@,
            !r.keys@.last().watch_tree,
    {
        self.watch(root, path, false)
    }

    /// The same monitor, watching one more key and the tree below it.
    pub fn watch_key_recursive(self, root: RegistryRoot, path: &str) -> (r: Self)
        ensures
            r.name == self.name,
            r.session_name == self.session_name,
            r.state == self.state,
            r.keys@.len() == self.keys@.len() + 1,
            r.keys@.subrange(0, self.keys@.len() as int) == self.keys@,
            r.keys@.last().root == root,
            r.keys@.last().path@ == path@,
            r.keys@.last().watch_tree,
    {
        self.watch(root, path, true)
    }

    /// The watched keys as they are compared, one for each watch.
    pub fn build_key_filters(&self) -> (r: Vec<String>)
        ensures
            r@.len() == self.keys@.len(),
            forall|i: int| 0 <= i < r@.len() ==> (#[trigger] r@[i])@ == self.keys@[i].spec_filter_path(),
    {
        let mut filters: Vec<String> = Vec::new();
        let mut i: usize = 0;
        while i < self.keys.len()
            invariant
                i <= self.keys@.len(),
                filters@.len() == i,
                forall|k: int|
                    0 <= k < i ==> (#[trigger] filters@[k])@ == self.keys@[k].spec_filter_path(),
            decreases self.keys@.len() - i,
        {
            filters.push(self.keys[i].filter_path());
            i = i + 1;
        }
        filters
    }

    /// Whether a change at the key is reported: no key is watched, or one
    /// of the watches covers the key, letter case aside.
    pub open spec fn spec_should_emit(&self, key_path: Seq<char>) -> bool {
        self.keys@.len() == 0 || some_covers(self.keys@, lowercase(key_path))
    }

    /// Whether a change at the key is reported.
    pub fn should_emit_event(&self, key_path: &str) -> (r: bool)
        ensures
            r == self.spec_should_emit(key_path@),
    {
        if self.keys.len() == 0 {
            return true;
        }
        let key = to_lowercase(key_path);
        let mut i: usize = 0;
        while i < self.keys.len()
            invariant
                i <= self.keys@.len(),
                key@ == lowercase(key_path@),
                forall|k: int| 0 <= k < i ==> !(#[trigger] self.keys@[k]).covers(key@),
            decreases self.keys@.len() - i,
        {
            if self.keys[i].check(key.as_str()) {
                return true;
            }
            i = i + 1;
        }
        false
    }

    /// The event to emit for a record, if any: none for a key being
    /// opened and none for a key that is not watched.
    pub fn event_for(&self, record: &EtwEvent, process: &str) -> (r: Option<Event>)
        ensures
            r is Some <==> !(record is RegistryKeyOpened) && self.spec_should_emit(
                key_path_of(*record),
            ),
            r matches Some(e) ==> e.source@ == self.name@ && is_kind_of(*record, e.kind)
                && e.metadata@ == metadata_of(*record, process@),
    {
        if !self.should_emit_event(key_path(record).as_str()) {
            return None;
        }
        to_event(record, self.name.as_str(), process)
    }

    /// Whether the monitor runs.
    pub fn is_running(&self) -> (r: bool)
        ensures
            r == self.state.spec_is_running(),
    {
        self.state.is_running()
    }

    /// What `start` has to do: nothing where the monitor runs already, a
    /// launch where it is stopped and watches a key; without a key to
    /// watch it is a configuration error.
    pub fn start_decision(&self) -> (r: Result<StartDecision, PluginError>)
        ensures
            self.state.spec_is_running() ==> r == Ok::<StartDecision, PluginError>(
                StartDecision::AlreadyRunning,
            ),
            !self.state.spec_is_running() && self.keys@.len() > 0 ==> r == Ok::<
                StartDecision,
                PluginError,
            >(StartDecision::Launch),
            !self.state.spec_is_running() && self.keys@.len() == 0 ==> (r matches Err(
                PluginError::Configuration(m),
            ) && m@ == "No registry keys specified to watch"@),
    {
        if self.state.is_running() {
            Ok(StartDecision::AlreadyRunning)
        } else if self.keys.len() == 0 {
            Err(PluginError::Configuration(String::from_str("No registry keys specified to watch")))
        } else {
            Ok(StartDecision::Launch)
        }
    }

    /// Takes note of how the launch of the trace session went. `launch`
    /// is `Ok` where the session came up, else it holds the code with
    /// which the system refused it. A monitor whose session came up runs;
    /// else it stays stopped and the result is the error for that code: a
    /// configuration error where a session of that name exists, an
    /// initialization error that names the missing privilege where access
    /// was denied.
    pub fn finish_start(&mut self, launch: Result<(), u32>) -> (r: Result<(), PluginError>)
        ensures
            final(self).name == old(self).name,
            final(self).keys == old(self).keys,
            final(self).session_name == old(self).session_name,
            final(self).state.spec_is_running() == (launch is Ok),
            launch is Ok ==> r is Ok,
            launch matches Err(code) ==> (r matches Err(e) && is_session_error(
                old(self).session_name@,
                code,
                e,
            )),
    {
        match launch {
            Ok(()) => {
                self.state = Lifecycle::Running;
                Ok(())
            },
            Err(code) => {
                self.state = Lifecycle::Stopped;
                Err(session_error(self.session_name.as_str(), code))
            },
        }
    }

    /// Stops the monitor; safe in every state.
    pub fn stop(&mut self)
        ensures
            !final(self).state.spec_is_running(),
            final(self).name == old(self).name,
            final(self).keys == old(self).keys,
            final(self).session_name == old(self).session_name,
    {
        self.state = Lifecycle::Stopped;
    }
}

} // verus!
