//! The kernel-trace monitor for processes, threads, file I/O and network
//! connections: what a trace record means and which event it becomes.

use crate::event::{fresh_id, Event, EventKind, NetworkProtocol};
use crate::plugin::{Lifecycle, PluginError, StartDecision};
use crate::plugins::wire::{
    decode_units, le_u16, le_u32, le_u64, nth_text, read_u16, read_u32, read_u64,
    runs_of, split_texts, tail, take_until_null, text_at, texts_of, units_of, until_null,
};
use crate::text::{
    concat2, concat3, decimal, from_utf16_lossy, hex_byte, lowercase, opt_text, push_hex_byte,
    string_of, to_lowercase, u64_to_string, utf16_lossy,
};
use vstd::prelude::*;
use vstd::slice::slice_subrange;
use vstd::string::*;

verus! {

/// The trace provider for process and thread events.
pub const KERNEL_PROCESS_PROVIDER: u128 = 0x22fb2cd6_0e7b_422b_a0c7_2fad1fd0e716;

/// The trace provider for file events.
pub const KERNEL_FILE_PROVIDER: u128 = 0xedd08927_3247_4782_8e9e_16cd77c99a55;

/// The trace provider for network events.
pub const KERNEL_NETWORK_PROVIDER: u128 = 0x7dd42a49_c5b4_4e2b_9f1c_2e4e6e8e6f27;

pub const EVENT_PROCESS_START: u16 = 1;

pub const EVENT_PROCESS_STOP: u16 = 5;

pub const EVENT_THREAD_START: u16 = 3;

pub const EVENT_THREAD_STOP: u16 = 4;

pub const EVENT_FILE_CREATE: u16 = 64;

pub const EVENT_FILE_DELETE: u16 = 65;

pub const EVENT_FILE_READ: u16 = 67;

pub const EVENT_FILE_WRITE: u16 = 68;

pub const EVENT_NETWORK_CONNECT: u16 = 11;

pub const EVENT_NETWORK_DISCONNECT: u16 = 12;

/// A trace record, parsed.
#[derive(Debug, Clone)]
pub enum EtwEvent {
    ProcessStart {
        pid: u32,
        parent_pid: u32,
        image_name: String,
        command_line: String,
        session_id: u32,
        user_sid: Option<String>,
    },
    ProcessStop { pid: u32, exit_code: u32 },
    ThreadStart { pid: u32, tid: u32, start_address: u64 },
    ThreadStop { pid: u32, tid: u32 },
    FileCreate { pid: u32, path: String },
    FileDelete { pid: u32, path: String },
    FileRead { pid: u32, path: String, bytes_read: u64 },
    FileWrite { pid: u32, path: String, bytes_written: u64 },
    NetworkConnect {
        pid: u32,
        local_addr: String,
        local_port: u16,
        remote_addr: String,
        remote_port: u16,
        protocol: NetworkProtocol,
    },
    NetworkDisconnect {
        pid: u32,
        local_addr: String,
        local_port: u16,
        remote_addr: String,
        remote_port: u16,
    },
}

/// The first two texts that stand in the bytes as UTF-16 between null
/// units; none where the bytes are fewer than four.
pub open spec fn two_texts(data: Seq<u8>) -> (Option<Seq<char>>, Option<Seq<char>>) {
    if data.len() < 4 {
        (None, None)
    } else {
        let texts = texts_of(runs_of(units_of(data)));
        (text_at(texts, 0), text_at(texts, 1))
    }
}

/// The first two texts that stand in the bytes as UTF-16 between null
/// units.
pub fn extract_unicode_strings(data: &[u8]) -> (r: (Option<String>, Option<String>))
    ensures
        opt_text(r.0) == two_texts(data@).0,
        opt_text(r.1) == two_texts(data@).1,
{
    if data.len() < 4 {
        return (None, None);
    }
    let units = decode_units(data);
    let texts = split_texts(&units);
    (nth_text(&texts, 0), nth_text(&texts, 1))
}

/// The file path that the bytes hold: where they start with a count
/// between 1 and 259 and hold that many units after it, those units; else
/// the units up to the first null unit, where there are any.
pub open spec fn file_path_of(data: Seq<u8>) -> Option<Seq<char>> {
    if data.len() < 2 {
        None
    } else {
        let count = le_u16(data, 0) as int;
        if 0 < count < 260 && data.len() >= 2 + count * 2 {
            Some(utf16_lossy(units_of(data.subrange(2, 2 + count * 2))))
        } else {
            let units = until_null(units_of(data));
            if units.len() > 0 {
                Some(utf16_lossy(units))
            } else {
                None
            }
        }
    }
}

/// The file path that the bytes hold.
pub fn extract_file_path(data: &[u8]) -> (r: Option<String>)
    ensures
        opt_text(r) == file_path_of(data@),
{
    let total: usize = data.len();
    if total < 2 {
        return None;
    }
    let count: usize = read_u16(data, 0) as usize;
    if count > 0 && count < 260 && total >= 2 + count * 2 {
        let units = decode_units(slice_subrange(data, 2, 2 + count * 2));
        return Some(from_utf16_lossy(&units));
    }
    let units = decode_units(data);
    let chars = take_until_null(&units);
    if chars.len() > 0 {
        Some(from_utf16_lossy(&chars))
    } else {
        None
    }
}

/// Four bytes as a dotted quad.
pub open spec fn dotted_quad(a: u8, b: u8, c: u8, d: u8) -> Seq<char> {
    decimal(a as nat) + "."@ + decimal(b as nat) + "."@ + decimal(c as nat) + "."@ + decimal(
        d as nat,
    )
}

fn render_quad(a: u8, b: u8, c: u8, d: u8) -> (r: String)
    ensures
        r@ == dotted_quad(a, b, c, d),
{
    let mut out = u64_to_string(a as u64);
    out.append(".");
    out.append(u64_to_string(b as u64).as_str());
    out.append(".");
    out.append(u64_to_string(c as u64).as_str());
    out.append(".");
    out.append(u64_to_string(d as u64).as_str());
    out
}

/// Whether sixteen bytes are an IPv4 address mapped into IPv6: ten zero
/// bytes, then two bytes `FF`.
pub open spec fn is_mapped_v4(data: Seq<u8>) -> bool {
    &&& forall|i: int| 0 <= i < 10 ==> data[i] == 0
    &&& data[10] == 0xff
    &&& data[11] == 0xff
}

/// The first `n` groups of two bytes in hexadecimal, with colons between
/// them.
pub open spec fn hex_groups(data: Seq<u8>, n: int) -> Seq<char>
    decreases n,
{
    if n <= 0 {
        Seq::empty()
    } else if n == 1 {
        hex_byte(data[0]) + hex_byte(data[1])
    } else {
        hex_groups(data, n - 1) + seq![':'] + hex_byte(data[2 * n - 2]) + hex_byte(data[2 * n - 1])
    }
}

/// An address as text: sixteen bytes are an IPv6 address, shown as a
/// dotted quad where it is a mapped IPv4 address and as eight groups else;
/// four to fifteen bytes are an IPv4 address in their first four; fewer
/// are unknown.
pub open spec fn ip_text(data: Seq<u8>) -> Seq<char> {
    if data.len() >= 16 {
        if is_mapped_v4(data) {
            dotted_quad(data[12], data[13], data[14], data[15])
        } else {
            hex_groups(data, 8)
        }
    } else if data.len() >= 4 {
        dotted_quad(data[0], data[1], data[2], data[3])
    } else {
        "unknown"@
    }
}

fn mapped_v4(data: &[u8]) -> (r: bool)
    requires
        data@.len() >= 16,
    ensures
        r == is_mapped_v4(data@),
{
    let mut i: usize = 0;
    while i < 10
        invariant
            i <= 10,
            data@.len() >= 16,
            forall|k: int| 0 <= k < i ==> data@[k] == 0,
        decreases 10 - i,
    {
        if data[i] != 0 {
            return false;
        }
        i = i + 1;
    }
    data[10] == 0xff && data[11] == 0xff
}

/// An address as text.
pub fn parse_ip_address(data: &[u8]) -> (r: String)
    ensures
        r@ == ip_text(data@),
{
    let total: usize = data.len();
    if total >= 16 {
        if mapped_v4(data) {
            render_quad(data[12], data[13], data[14], data[15])
        } else {
            let mut out: Vec<char> = Vec::new();
            let mut group: usize = 0;
            while group < 8
                invariant
                    group <= 8,
                    data@.len() >= 16,
                    out@ == hex_groups(data@, group as int),
                decreases 8 - group,
            {
                let ghost before = out@;
                if group > 0 {
                    out.push(':');
                }
                push_hex_byte(&mut out, data[2 * group]);
                push_hex_byte(&mut out, data[2 * group + 1]);
                proof {
                    if group == 0 {
                        assert(out@ =~= hex_byte(data@[0]) + hex_byte(data@[1]));
                    } else {
                        assert(out@ =~= before + seq![':'] + hex_byte(data@[2 * group])
                            + hex_byte(data@[2 * group + 1]));
                    }
                }
                group = group + 1;
            }
            string_of(&out)
        }
    } else if total >= 4 {
        render_quad(data[0], data[1], data[2], data[3])
    } else {
        String::from_str("unknown")
    }
}

/// Whether `protocol` is what a protocol byte stands for: 6 is TCP, 17 is
/// UDP, every other byte is kept as its number.
pub open spec fn is_protocol(byte: u8, protocol: NetworkProtocol) -> bool {
    if byte == 6 {
        protocol is Tcp
    } else if byte == 17 {
        protocol is Udp
    } else {
        protocol matches NetworkProtocol::Other(n) && n@ == decimal(byte as nat)
    }
}

/// The protocol that a protocol byte stands for.
pub fn protocol_of(byte: u8) -> (r: NetworkProtocol)
    ensures
        is_protocol(byte, r),
{
    if byte == 6 {
        NetworkProtocol::Tcp
    } else if byte == 17 {
        NetworkProtocol::Udp
    } else {
        NetworkProtocol::Other(u64_to_string(byte as u64))
    }
}

/// The text, or `default` where there is none.
pub open spec fn text_or(text: Option<Seq<char>>, default: Seq<char>) -> Seq<char> {
    match text {
        Some(t) => t,
        None => default,
    }
}

/// The bytes from `from` on.
pub open spec fn rest(data: Seq<u8>, from: int) -> Seq<u8> {
    data.subrange(from, data.len() as int)
}

/// The remote address of a network record: bytes 32 to 47 where the record
/// has them, else unknown.
pub open spec fn remote_text(data: Seq<u8>) -> Seq<char> {
    if data.len() >= 48 {
        ip_text(data.subrange(32, 48))
    } else {
        "unknown"@
    }
}

/// Whether `r` is what a record of the given provider and number parses
/// to. Records that are too short, and records of other providers or
/// numbers, parse to nothing; records of the file and network providers
/// must hold at least one byte.
pub open spec fn is_parsed(provider: u128, id: u16, data: Seq<u8>, r: Option<EtwEvent>) -> bool {
    if provider == KERNEL_PROCESS_PROVIDER {
        if id == EVENT_PROCESS_START {
            is_process_start(data, r)
        } else if id == EVENT_PROCESS_STOP {
            is_process_stop(data, r)
        } else if id == EVENT_THREAD_START {
            is_thread_start(data, r)
        } else if id == EVENT_THREAD_STOP {
            is_thread_stop(data, r)
        } else {
            r is None
        }
    } else if provider == KERNEL_FILE_PROVIDER && data.len() > 0 {
        if id == EVENT_FILE_CREATE {
            is_file_create(data, r)
        } else if id == EVENT_FILE_DELETE {
            is_file_delete(data, r)
        } else if id == EVENT_FILE_READ {
            is_file_read(data, r)
        } else if id == EVENT_FILE_WRITE {
            is_file_write(data, r)
        } else {
            r is None
        }
    } else if provider == KERNEL_NETWORK_PROVIDER && data.len() > 0 {
        if id == EVENT_NETWORK_CONNECT {
            is_network_connect(data, r)
        } else if id == EVENT_NETWORK_DISCONNECT {
            is_network_disconnect(data, r)
        } else {
            r is None
        }
    } else {
        r is None
    }
}

/// A process start record: process, parent and session as 32-bit integers
/// at offsets 0, 4 and 8, then, from offset 16, the image name and the
/// command line. A missing image name is replaced by `PID:` and the
/// process number, a missing command line is empty.
pub open spec fn is_process_start(data: Seq<u8>, r: Option<EtwEvent>) -> bool {
    if data.len() < 16 {
        r is None
    } else {
        &&& r matches Some(
            EtwEvent::ProcessStart {
                pid,
                parent_pid,
                image_name,
                command_line,
                session_id,
                user_sid,
            },
        )
        &&& pid == le_u32(data, 0)
        &&& parent_pid == le_u32(data, 4)
        &&& session_id == le_u32(data, 8)
        &&& image_name@ == text_or(two_texts(rest(data, 16)).0, "PID:"@ + decimal(pid as nat))
        &&& command_line@ == text_or(two_texts(rest(data, 16)).1, Seq::empty())
        &&& user_sid is None
    }
}

/// A process stop record: process and exit code at offsets 0 and 4.
pub open spec fn is_process_stop(data: Seq<u8>, r: Option<EtwEvent>) -> bool {
    if data.len() < 8 {
        r is None
    } else {
        r == Some(EtwEvent::ProcessStop { pid: le_u32(data, 0), exit_code: le_u32(data, 4) })
    }
}

/// A thread start record: thread and process at offsets 0 and 4, the start
/// address as a 64-bit integer at offset 8.
pub open spec fn is_thread_start(data: Seq<u8>, r: Option<EtwEvent>) -> bool {
    if data.len() < 16 {
        r is None
    } else {
        r == Some(
            EtwEvent::ThreadStart {
                pid: le_u32(data, 4),
                tid: le_u32(data, 0),
                start_address: le_u64(data, 8),
            },
        )
    }
}

/// A thread stop record: thread and process at offsets 0 and 4.
pub open spec fn is_thread_stop(data: Seq<u8>, r: Option<EtwEvent>) -> bool {
    if data.len() < 8 {
        r is None
    } else {
        r == Some(EtwEvent::ThreadStop { pid: le_u32(data, 4), tid: le_u32(data, 0) })
    }
}

/// A file create record: the process at offset 0, the path from offset 8;
/// a missing path is empty.
pub open spec fn is_file_create(data: Seq<u8>, r: Option<EtwEvent>) -> bool {
    if data.len() < 8 {
        r is None
    } else {
        &&& r matches Some(EtwEvent::FileCreate { pid, path })
        &&& pid == le_u32(data, 0)
        &&& path@ == text_or(file_path_of(rest(data, 8)), Seq::empty())
    }
}

/// A file delete record: the process at offset 0, the path from offset 8.
pub open spec fn is_file_delete(data: Seq<u8>, r: Option<EtwEvent>) -> bool {
    if data.len() < 8 {
        r is None
    } else {
        &&& r matches Some(EtwEvent::FileDelete { pid, path })
        &&& pid == le_u32(data, 0)
        &&& path@ == text_or(file_path_of(rest(data, 8)), Seq::empty())
    }
}

/// A file read record: the process at offset 0, the byte count as a
/// 64-bit integer at offset 8, the path from offset 16.
pub open spec fn is_file_read(data: Seq<u8>, r: Option<EtwEvent>) -> bool {
    if data.len() < 16 {
        r is None
    } else {
        &&& r matches Some(EtwEvent::FileRead { pid, path, bytes_read })
        &&& pid == le_u32(data, 0)
        &&& bytes_read == le_u64(data, 8)
        &&& path@ == text_or(file_path_of(rest(data, 16)), Seq::empty())
    }
}

/// A file write record, laid out as a file read record.
pub open spec fn is_file_write(data: Seq<u8>, r: Option<EtwEvent>) -> bool {
    if data.len() < 16 {
        r is None
    } else {
        &&& r matches Some(EtwEvent::FileWrite { pid, path, bytes_written })
        &&& pid == le_u32(data, 0)
        &&& bytes_written == le_u64(data, 8)
        &&& path@ == text_or(file_path_of(rest(data, 16)), Seq::empty())
    }
}

/// A connect record: the process at offset 0, the ports as 16-bit
/// integers at offsets 8 and 10, the protocol byte at offset 12, the
/// local address in bytes 16 to 31 and the remote one after it.
pub open spec fn is_network_connect(data: Seq<u8>, r: Option<EtwEvent>) -> bool {
    if data.len() < 32 {
        r is None
    } else {
        &&& r matches Some(
            EtwEvent::NetworkConnect {
                pid,
                local_addr,
                local_port,
                remote_addr,
                remote_port,
                protocol,
            },
        )
        &&& pid == le_u32(data, 0)
        &&& local_port == le_u16(data, 8)
        &&& remote_port == le_u16(data, 10)
        &&& is_protocol(data[12], protocol)
        &&& local_addr@ == ip_text(data.subrange(16, 32))
        &&& remote_addr@ == remote_text(data)
    }
}

/// A disconnect record, laid out as a connect record without protocol.
pub open spec fn is_network_disconnect(data: Seq<u8>, r: Option<EtwEvent>) -> bool {
    if data.len() < 32 {
        r is None
    } else {
        &&& r matches Some(
            EtwEvent::NetworkDisconnect { pid, local_addr, local_port, remote_addr, remote_port },
        )
        &&& pid == le_u32(data, 0)
        &&& local_port == le_u16(data, 8)
        &&& remote_port == le_u16(data, 10)
        &&& local_addr@ == ip_text(data.subrange(16, 32))
        &&& remote_addr@ == remote_text(data)
    }
}

/// Parses a process start record.
pub fn parse_process_start(data: &[u8]) -> (r: Option<EtwEvent>)
    ensures
        is_process_start(data@, r),
{
    if data.len() < 16 {
        return None;
    }
    let pid = read_u32(data, 0);
    let parent_pid = read_u32(data, 4);
    let session_id = read_u32(data, 8);
    let (image, command) = extract_unicode_strings(tail(data, 16));
    let image_name = match image {
        Some(name) => name,
        None => {
            let digits = u64_to_string(pid as u64);
            concat2("PID:", digits.as_str())
        },
    };
    let command_line = match command {
        Some(line) => line,
        None => String::new(),
    };
    Some(
        EtwEvent::ProcessStart {
            pid,
            parent_pid,
            image_name,
            command_line,
            session_id,
            user_sid: None,
        },
    )
}

/// Parses a process stop record.
pub fn parse_process_stop(data: &[u8]) -> (r: Option<EtwEvent>)
    ensures
        is_process_stop(data@, r),
{
    if data.len() < 8 {
        return None;
    }
    let pid = read_u32(data, 0);
    let exit_code = read_u32(data, 4);
    Some(EtwEvent::ProcessStop { pid, exit_code })
}

/// Parses a thread start record.
pub fn parse_thread_start(data: &[u8]) -> (r: Option<EtwEvent>)
    ensures
        is_thread_start(data@, r),
{
    if data.len() < 16 {
        return None;
    }
    let tid = read_u32(data, 0);
    let pid = read_u32(data, 4);
    let start_address = read_u64(data, 8);
    Some(EtwEvent::ThreadStart { pid, tid, start_address })
}

/// Parses a thread stop record.
pub fn parse_thread_stop(data: &[u8]) -> (r: Option<EtwEvent>)
    ensures
        is_thread_stop(data@, r),
{
    if data.len() < 8 {
        return None;
    }
    let tid = read_u32(data, 0);
    let pid = read_u32(data, 4);
    Some(EtwEvent::ThreadStop { pid, tid })
}

fn path_from(data: &[u8], from: usize) -> (r: String)
    requires
        from <= data@.len(),
    ensures
        r@ == text_or(file_path_of(rest(data@, from as int)), Seq::empty()),
{
    match extract_file_path(tail(data, from)) {
        Some(path) => path,
        None => String::new(),
    }
}

/// Parses a file create record.
pub fn parse_file_create(data: &[u8]) -> (r: Option<EtwEvent>)
    ensures
        is_file_create(data@, r),
{
    if data.len() < 8 {
        return None;
    }
    let pid = read_u32(data, 0);
    let path = path_from(data, 8);
    Some(EtwEvent::FileCreate { pid, path })
}

/// Parses a file delete record.
pub fn parse_file_delete(data: &[u8]) -> (r: Option<EtwEvent>)
    ensures
        is_file_delete(data@, r),
{
    if data.len() < 8 {
        return None;
    }
    let pid = read_u32(data, 0);
    let path = path_from(data, 8);
    Some(EtwEvent::FileDelete { pid, path })
}

/// Parses a file read record.
pub fn parse_file_read(data: &[u8]) -> (r: Option<EtwEvent>)
    ensures
        is_file_read(data@, r),
{
    if data.len() < 16 {
        return None;
    }
    let pid = read_u32(data, 0);
    let bytes_read = read_u64(data, 8);
    let path = path_from(data, 16);
    Some(EtwEvent::FileRead { pid, path, bytes_read })
}

/// Parses a file write record.
pub fn parse_file_write(data: &[u8]) -> (r: Option<EtwEvent>)
    ensures
        is_file_write(data@, r),
{
    if data.len() < 16 {
        return None;
    }
    let pid = read_u32(data, 0);
    let bytes_written = read_u64(data, 8);
    let path = path_from(data, 16);
    Some(EtwEvent::FileWrite { pid, path, bytes_written })
}

fn remote_address(data: &[u8]) -> (r: String)
    requires
        data@.len() >= 32,
    ensures
        r@ == remote_text(data@),
{
    if data.len() >= 48 {
        parse_ip_address(slice_subrange(data, 32, 48))
    } else {
        String::from_str("unknown")
    }
}

/// Parses a connect record.
pub fn parse_network_connect(data: &[u8]) -> (r: Option<EtwEvent>)
    ensures
        is_network_connect(data@, r),
{
    if data.len() < 32 {
        return None;
    }
    let pid = read_u32(data, 0);
    let local_port = read_u16(data, 8);
    let remote_port = read_u16(data, 10);
    let protocol = protocol_of(data[12]);
    let local_addr = parse_ip_address(slice_subrange(data, 16, 32));
    let remote_addr = remote_address(data);
    Some(
        EtwEvent::NetworkConnect {
            pid,
            local_addr,
            local_port,
            remote_addr,
            remote_port,
            protocol,
        },
    )
}

/// Parses a disconnect record.
pub fn parse_network_disconnect(data: &[u8]) -> (r: Option<EtwEvent>)
    ensures
        is_network_disconnect(data@, r),
{
    if data.len() < 32 {
        return None;
    }
    let pid = read_u32(data, 0);
    let local_port = read_u16(data, 8);
    let remote_port = read_u16(data, 10);
    let local_addr = parse_ip_address(slice_subrange(data, 16, 32));
    let remote_addr = remote_address(data);
    Some(EtwEvent::NetworkDisconnect { pid, local_addr, local_port, remote_addr, remote_port })
}

/// Parses the record of a provider: `provider` is the provider's
/// identifier as a number, `id` the number of the event, `data` the
/// record's user data.
pub fn parse_etw_event(provider: u128, id: u16, data: &[u8]) -> (r: Option<EtwEvent>)
    ensures
        is_parsed(provider, id, data@, r),
{
    if provider == KERNEL_PROCESS_PROVIDER {
        if id == EVENT_PROCESS_START {
            parse_process_start(data)
        } else if id == EVENT_PROCESS_STOP {
            parse_process_stop(data)
        } else if id == EVENT_THREAD_START {
            parse_thread_start(data)
        } else if id == EVENT_THREAD_STOP {
            parse_thread_stop(data)
        } else {
            None
        }
    } else if provider == KERNEL_FILE_PROVIDER && data.len() > 0 {
        if id == EVENT_FILE_CREATE {
            parse_file_create(data)
        } else if id == EVENT_FILE_DELETE {
            parse_file_delete(data)
        } else if id == EVENT_FILE_READ {
            parse_file_read(data)
        } else if id == EVENT_FILE_WRITE {
            parse_file_write(data)
        } else {
            None
        }
    } else if provider == KERNEL_NETWORK_PROVIDER && data.len() > 0 {
        if id == EVENT_NETWORK_CONNECT {
            parse_network_connect(data)
        } else if id == EVENT_NETWORK_DISCONNECT {
            parse_network_disconnect(data)
        } else {
            None
        }
    } else {
        None
    }
}

/// The name of a process, given what looking up its image path came to:
/// process 0 is `System`; a path gives its final component, or `unknown`
/// where it has none; without a path the name is `PID:` and the number.
pub open spec fn process_name_text(pid: u32, image_path: Option<Seq<char>>) -> Seq<char> {
    if pid == 0 {
        "System"@
    } else {
        match image_path {
            Some(path) => text_or(crate::text::path_file_name(path), "unknown"@),
            None => "PID:"@ + decimal(pid as nat),
        }
    }
}

/// The name of a process, given what looking up its image path came to.
pub fn process_name_from(pid: u32, image_path: Option<&str>) -> (r: String)
    ensures
        r@ == process_name_text(
            pid,
            match image_path {
                Some(p) => Some(p@),
                None => None,
            },
        ),
{
    if pid == 0 {
        return String::from_str("System");
    }
    match image_path {
        Some(path) => match crate::text::file_name_of(path) {
            Some(name) => name,
            None => String::from_str("unknown"),
        },
        None => {
            let digits = u64_to_string(pid as u64);
            concat2("PID:", digits.as_str())
        },
    }
}

/// Whether `kind` is the event kind that a record becomes. `process` is
/// the name of the record's process as it was looked up; a process start
/// carries its own.
pub open spec fn is_kind_of(record: EtwEvent, kind: EventKind) -> bool {
    match record {
        EtwEvent::ProcessStart {
            pid,
            parent_pid,
            image_name,
            command_line,
            session_id,
            user_sid,
        } => {
            &&& kind matches EventKind::ProcessStarted {
                pid: p,
                parent_pid: pp,
                name,
                path,
                command_line: line,
                session_id: s,
                user,
            }
            &&& p == pid
            &&& pp == parent_pid
            &&& s == session_id
            &&& name@ == image_name@
            &&& path@ == image_name@
            &&& line@ == command_line@
            &&& user@ == text_or(opt_text(user_sid), Seq::empty())
        },
        EtwEvent::ProcessStop { pid, exit_code } => {
            kind matches EventKind::ProcessStopped { pid: p, name: _, exit_code: code } && p == pid
                && code == Some(exit_code)
        },
        EtwEvent::ThreadStart { pid, tid, start_address } => {
            kind matches EventKind::ThreadCreated {
                pid: p,
                tid: t,
                start_address: a,
                user_stack,
            } && p == pid && t == tid && a == start_address && user_stack is None
        },
        EtwEvent::ThreadStop { pid, tid } => {
            kind matches EventKind::ThreadDestroyed { pid: p, tid: t } && p == pid && t == tid
        },
        EtwEvent::FileCreate { pid, path } => {
            kind matches EventKind::FileAccessed { pid: p, path: q, access_mask } && p == pid && q@
                == path@ && access_mask == 0
        },
        EtwEvent::FileDelete { pid, path } => {
            kind matches EventKind::FileIoDelete { pid: p, path: q } && p == pid && q@ == path@
        },
        EtwEvent::FileRead { pid, path, bytes_read } => {
            kind matches EventKind::FileIoRead { pid: p, path: q, bytes_read: n } && p == pid && q@
                == path@ && n == bytes_read
        },
        EtwEvent::FileWrite { pid, path, bytes_written } => {
            kind matches EventKind::FileIoWrite { pid: p, path: q, bytes_written: n } && p == pid
                && q@ == path@ && n == bytes_written
        },
        EtwEvent::NetworkConnect {
            pid,
            local_addr,
            local_port,
            remote_addr,
            remote_port,
            protocol,
        } => {
            kind matches EventKind::NetworkConnectionCreated {
                pid: p,
                local_addr: la,
                local_port: lp,
                remote_addr: ra,
                remote_port: rp,
                protocol: proto,
            } && p == pid && la@ == local_addr@ && lp == local_port && ra@ == remote_addr@ && rp
                == remote_port && same_protocol(proto, protocol)
        },
        EtwEvent::NetworkDisconnect { pid, local_addr, local_port, remote_addr, remote_port } => {
            kind matches EventKind::NetworkConnectionClosed {
                pid: p,
                local_addr: la,
                local_port: lp,
                remote_addr: ra,
                remote_port: rp,
            } && p == pid && la@ == local_addr@ && lp == local_port && ra@ == remote_addr@ && rp
                == remote_port
        },
    }
}

/// Whether two protocols are the same, texts taken by their view.
pub open spec fn same_protocol(a: NetworkProtocol, b: NetworkProtocol) -> bool {
    match (a, b) {
        (NetworkProtocol::Tcp, NetworkProtocol::Tcp) => true,
        (NetworkProtocol::Udp, NetworkProtocol::Udp) => true,
        (NetworkProtocol::Other(x), NetworkProtocol::Other(y)) => x@ == y@,
        _ => false,
    }
}

/// The name of a protocol as it stands in metadata.
pub open spec fn protocol_text(protocol: NetworkProtocol) -> Seq<char> {
    match protocol {
        NetworkProtocol::Tcp => "Tcp"@,
        NetworkProtocol::Udp => "Udp"@,
        NetworkProtocol::Other(n) => "Other(\""@ + n@ + "\")"@,
    }
}

fn render_protocol(protocol: &NetworkProtocol) -> (r: String)
    ensures
        r@ == protocol_text(*protocol),
{
    match protocol {
        NetworkProtocol::Tcp => String::from_str("Tcp"),
        NetworkProtocol::Udp => String::from_str("Udp"),
        NetworkProtocol::Other(n) => concat3("Other(\"", n.as_str(), "\")"),
    }
}

fn copy_protocol(protocol: &NetworkProtocol) -> (r: NetworkProtocol)
    ensures
        r == *protocol,
{
    match protocol {
        NetworkProtocol::Tcp => NetworkProtocol::Tcp,
        NetworkProtocol::Udp => NetworkProtocol::Udp,
        NetworkProtocol::Other(n) => NetworkProtocol::Other(n.clone()),
    }
}

/// The metadata of the event that a record becomes. `process` is the name
/// of the record's process as it was looked up; a process start carries
/// its own.
pub open spec fn metadata_of(record: EtwEvent, process: Seq<char>) -> Map<Seq<char>, Seq<char>> {
    let base = Map::<Seq<char>, Seq<char>>::empty();
    match record {
        EtwEvent::ProcessStart { parent_pid, image_name, .. } => base.insert(
            "process_name"@,
            image_name@,
        ).insert("parent_pid"@, decimal(parent_pid as nat)),
        EtwEvent::ProcessStop { exit_code, .. } => base.insert("process_name"@, process).insert(
            "exit_code"@,
            decimal(exit_code as nat),
        ),
        EtwEvent::ThreadStart { .. } => base.insert("process_name"@, process),
        EtwEvent::ThreadStop { .. } => base.insert("process_name"@, process),
        EtwEvent::FileCreate { .. } => base.insert("process_name"@, process).insert(
            "operation"@,
            "create"@,
        ),
        EtwEvent::FileDelete { .. } => base.insert("process_name"@, process),
        EtwEvent::FileRead { bytes_read, .. } => base.insert("process_name"@, process).insert(
            "bytes"@,
            decimal(bytes_read as nat),
        ),
        EtwEvent::FileWrite { bytes_written, .. } => base.insert("process_name"@, process).insert(
            "bytes"@,
            decimal(bytes_written as nat),
        ),
        EtwEvent::NetworkConnect { protocol, .. } => base.insert("process_name"@, process).insert(
            "protocol"@,
            protocol_text(protocol),
        ),
        EtwEvent::NetworkDisconnect { .. } => base.insert("process_name"@, process),
    }
}

/// The name of the process that a stopped process had: the one looked up.
pub open spec fn stopped_name(kind: EventKind) -> Seq<char> {
    match kind {
        EventKind::ProcessStopped { name, .. } => name@,
        _ => Seq::empty(),
    }
}

/// The event that a record becomes, from the plugin named `source`.
/// `process` is the name of the record's process as it was looked up.
pub fn to_event(record: &EtwEvent, source: &str, process: &str) -> (r: Event)
    ensures
        r.source@ == source@,
        is_kind_of(*record, r.kind),
        record is ProcessStop ==> stopped_name(r.kind) == process@,
        r.metadata@ == metadata_of(*record, process@),
{
    match record {
        EtwEvent::ProcessStart {
            pid,
            parent_pid,
            image_name,
            command_line,
            session_id,
            user_sid,
        } => {
            let user = match user_sid {
                Some(sid) => sid.clone(),
                None => String::new(),
            };
            let kind = EventKind::ProcessStarted {
                pid: *pid,
                parent_pid: *parent_pid,
                name: image_name.clone(),
                path: image_name.clone(),
                command_line: command_line.clone(),
                session_id: *session_id,
                user,
            };
            let parent = u64_to_string(*parent_pid as u64);
            Event::new(kind, source).with_metadata(
                "process_name",
                image_name.as_str(),
            ).with_metadata("parent_pid", parent.as_str())
        },
        EtwEvent::ProcessStop { pid, exit_code } => {
            let kind = EventKind::ProcessStopped {
                pid: *pid,
                name: String::from_str(process),
                exit_code: Some(*exit_code),
            };
            let code = u64_to_string(*exit_code as u64);
            Event::new(kind, source).with_metadata("process_name", process).with_metadata(
                "exit_code",
                code.as_str(),
            )
        },
        EtwEvent::ThreadStart { pid, tid, start_address } => {
            let kind = EventKind::ThreadCreated {
                pid: *pid,
                tid: *tid,
                start_address: *start_address,
                user_stack: None,
            };
            Event::new(kind, source).with_metadata("process_name", process)
        },
        EtwEvent::ThreadStop { pid, tid } => {
            let kind = EventKind::ThreadDestroyed { pid: *pid, tid: *tid };
            Event::new(kind, source).with_metadata("process_name", process)
        },
        EtwEvent::FileCreate { pid, path } => {
            let kind = EventKind::FileAccessed { pid: *pid, path: path.clone(), access_mask: 0 };
            Event::new(kind, source).with_metadata("process_name", process).with_metadata(
                "operation",
                "create",
            )
        },
        EtwEvent::FileDelete { pid, path } => {
            let kind = EventKind::FileIoDelete { pid: *pid, path: path.clone() };
            Event::new(kind, source).with_metadata("process_name", process)
        },
        EtwEvent::FileRead { pid, path, bytes_read } => {
            let kind = EventKind::FileIoRead {
                pid: *pid,
                path: path.clone(),
                bytes_read: *bytes_read,
            };
            let bytes = u64_to_string(*bytes_read);
            Event::new(kind, source).with_metadata("process_name", process).with_metadata(
                "bytes",
                bytes.as_str(),
            )
        },
        EtwEvent::FileWrite { pid, path, bytes_written } => {
            let kind = EventKind::FileIoWrite {
                pid: *pid,
                path: path.clone(),
                bytes_written: *bytes_written,
            };
            let bytes = u64_to_string(*bytes_written);
            Event::new(kind, source).with_metadata("process_name", process).with_metadata(
                "bytes",
                bytes.as_str(),
            )
        },
        EtwEvent::NetworkConnect {
            pid,
            local_addr,
            local_port,
            remote_addr,
            remote_port,
            protocol,
        } => {
            let kind = EventKind::NetworkConnectionCreated {
                pid: *pid,
                local_addr: local_addr.clone(),
                local_port: *local_port,
                remote_addr: remote_addr.clone(),
                remote_port: *remote_port,
                protocol: copy_protocol(protocol),
            };
            let text = render_protocol(protocol);
            Event::new(kind, source).with_metadata("process_name", process).with_metadata(
                "protocol",
                text.as_str(),
            )
        },
        EtwEvent::NetworkDisconnect { pid, local_addr, local_port, remote_addr, remote_port } => {
            let kind = EventKind::NetworkConnectionClosed {
                pid: *pid,
                local_addr: local_addr.clone(),
                local_port: *local_port,
                remote_addr: remote_addr.clone(),
                remote_port: *remote_port,
            };
            Event::new(kind, source).with_metadata("process_name", process)
        },
    }
}

/// The process that a record is about.
pub fn record_pid(record: &EtwEvent) -> (r: u32)
    ensures
        r == match *record {
            EtwEvent::ProcessStart { pid, .. } => pid,
            EtwEvent::ProcessStop { pid, .. } => pid,
            EtwEvent::ThreadStart { pid, .. } => pid,
            EtwEvent::ThreadStop { pid, .. } => pid,
            EtwEvent::FileCreate { pid, .. } => pid,
            EtwEvent::FileDelete { pid, .. } => pid,
            EtwEvent::FileRead { pid, .. } => pid,
            EtwEvent::FileWrite { pid, .. } => pid,
            EtwEvent::NetworkConnect { pid, .. } => pid,
            EtwEvent::NetworkDisconnect { pid, .. } => pid,
        },
{
    match record {
        EtwEvent::ProcessStart { pid, .. } => *pid,
        EtwEvent::ProcessStop { pid, .. } => *pid,
        EtwEvent::ThreadStart { pid, .. } => *pid,
        EtwEvent::ThreadStop { pid, .. } => *pid,
        EtwEvent::FileCreate { pid, .. } => *pid,
        EtwEvent::FileDelete { pid, .. } => *pid,
        EtwEvent::FileRead { pid, .. } => *pid,
        EtwEvent::FileWrite { pid, .. } => *pid,
        EtwEvent::NetworkConnect { pid, .. } => *pid,
        EtwEvent::NetworkDisconnect { pid, .. } => *pid,
    }
}

/// A plugin name as it stands in a session name: lower case, with blanks
/// and hyphens replaced by underscores.
pub open spec fn session_stem(name: Seq<char>) -> Seq<char> {
    lowercase(name).map_values(
        |c: char|
            if c == ' ' || c == '-' {
                '_'
            } else {
                c
            },
    )
}

/// A plugin name as it stands in a session name.
pub fn sanitize_name(name: &str) -> (r: String)
    ensures
        r@ == session_stem(name@),
{
    let lower = to_lowercase(name);
    let chars = crate::text::chars_of(lower.as_str());
    let mut out: Vec<char> = Vec::new();
    let mut i: usize = 0;
    while i < chars.len()
        invariant
            i <= chars@.len(),
            chars@ == lowercase(name@),
            out@.len() == i,
            forall|k: int| 0 <= k < i ==> out@[k] == session_stem(name@)[k],
        decreases chars@.len() - i,
    {
        let c = chars[i];
        if c == ' ' || c == '-' {
            out.push('_');
        } else {
            out.push(c);
        }
        i = i + 1;
    }
    assert(out@ =~= session_stem(name@));
    string_of(&out)
}

/// Whether a text is an identifier written without hyphens: thirty-two
/// hexadecimal digits, the letters in lower case.
pub open spec fn is_simple_id(text: Seq<char>) -> bool {
    text.len() == 32 && forall|i: int|
        0 <= i < text.len() ==> ('0' <= #[trigger] text[i] <= '9') || ('a' <= text[i] <= 'f')
}

/// Whether `name` is a session name for the plugin: the prefix, the
/// plugin's sanitized name, an underscore and an identifier without
/// hyphens.
pub open spec fn is_session_name(prefix: Seq<char>, plugin: Seq<char>, name: Seq<char>) -> bool {
    exists|suffix: Seq<char>|
        #[trigger] is_simple_id(suffix) && name == prefix + session_stem(plugin) + "_"@ + suffix
}

/// Calls `to_string` on `uuid::Uuid::simple` of the identifier: its
/// sixteen bytes as thirty-two hexadecimal digits in lower case, without
/// hyphens. Which digits they are is not stated.
#[verifier::external_body]
pub(crate) fn simple_text(id: &uuid::Uuid) -> (r: String)
    ensures
        is_simple_id(r@),
{
    id.simple().to_string()
}

/// A session name for a plugin: the prefix, the plugin's sanitized name,
/// an underscore and a fresh random identifier that keeps sessions apart.
pub fn unique_session_name(prefix: &str, plugin: &str) -> (r: String)
    ensures
        is_session_name(prefix@, plugin@, r@),
{
    let stem = sanitize_name(plugin);
    let mut out = concat3(prefix, stem.as_str(), "_");
    let id = fresh_id();
    let suffix = simple_text(&id);
    out.append(suffix.as_str());
    out
}

/// What failing to create a trace session means: a session of that name
/// exists already (code 183), the caller lacks the privilege (code 5), or
/// something else went wrong.
pub open spec fn is_session_error(session: Seq<char>, code: u32, error: PluginError) -> bool {
    if code == 183 {
        error matches PluginError::Configuration(m) && m@ == "ETW session '"@ + session
            + "' already exists. Try restarting or use a different name."@
    } else if code == 5 {
        error matches PluginError::Initialization(m) && m@
            == "Failed to start ETW monitoring. Administrator privileges are required for ETW."@
    } else {
        error matches PluginError::Initialization(m) && m@ == "Failed to create ETW session: "@
            + decimal(code as nat)
    }
}

/// The error for a failed attempt to create the trace session.
pub fn session_error(session: &str, code: u32) -> (r: PluginError)
    ensures
        is_session_error(session@, code, r),
{
    if code == 183 {
        PluginError::Configuration(
            concat3(
                "ETW session '",
                session,
                "' already exists. Try restarting or use a different name.",
            ),
        )
    } else if code == 5 {
        PluginError::Initialization(
            String::from_str(
                "Failed to start ETW monitoring. Administrator privileges are required for ETW.",
            ),
        )
    } else {
        let digits = u64_to_string(code as u64);
        PluginError::Initialization(concat2("Failed to create ETW session: ", digits.as_str()))
    }
}

/// A group of kernel events that the monitor can ask for.
#[derive(Debug, Clone, Copy, PartialEq, Eq, Structural)]
pub enum ProviderKind {
    Process,
    Thread,
    File,
    Network,
}

impl ProviderKind {
    /// The identifier of the provider that emits the group; thread events
    /// come from the process provider.
    pub fn guid(&self) -> (r: u128)
        ensures
            r == match *self {
                ProviderKind::Process => KERNEL_PROCESS_PROVIDER,
                ProviderKind::Thread => KERNEL_PROCESS_PROVIDER,
                ProviderKind::File => KERNEL_FILE_PROVIDER,
                ProviderKind::Network => KERNEL_NETWORK_PROVIDER,
            },
    {
        match self {
            ProviderKind::Process => KERNEL_PROCESS_PROVIDER,
            ProviderKind::Thread => KERNEL_PROCESS_PROVIDER,
            ProviderKind::File => KERNEL_FILE_PROVIDER,
            ProviderKind::Network => KERNEL_NETWORK_PROVIDER,
        }
    }
}

/// The kernel-trace monitor as it is configured.
#[derive(Debug, Clone)]
pub struct ProcessMonitorPlugin {
    pub name: String,
    pub filter_name: Option<String>,
    pub monitor_threads: bool,
    pub monitor_files: bool,
    pub monitor_network: bool,
    pub session_name: String,
    pub state: Lifecycle,
}

impl ProcessMonitorPlugin {
    /// A stopped monitor for process events only, with a session name of
    /// its own.
    pub fn new(name: &str) -> (r: Self)
        ensures
            r.name@ == name@,
            r.filter_name is None,
            !r.monitor_threads,
            !r.monitor_files,
            !r.monitor_network,
            !r.state.spec_is_running(),
            is_session_name("wee_"@, name@, r.session_name@),
    {
        ProcessMonitorPlugin {
            name: String::from_str(name),
            filter_name: None,
            monitor_threads: false,
            monitor_files: false,
            monitor_network: false,
            session_name: unique_session_name("wee_", name),
            state: Lifecycle::Stopped,
        }
    }

    /// The same monitor with a filter on the process name.
    pub fn with_name_filter(self, pattern: &str) -> (r: Self)
        ensures
            r.filter_name is Some,
            r.filter_name->0@ == pattern@,
            r.name == self.name,
            r.monitor_threads == self.monitor_threads,
            r.monitor_files == self.monitor_files,
            r.monitor_network == self.monitor_network,
            r.session_name == self.session_name,
            r.state == self.state,
    {
        let mut plugin = self;
        plugin.filter_name = Some(String::from_str(pattern));
        plugin
    }

    /// The same monitor with thread events switched on or off.
    pub fn with_thread_monitoring(self, enabled: bool) -> (r: Self)
        ensures
            r.monitor_threads == enabled,
            r.name == self.name,
            r.filter_name == self.filter_name,
            r.monitor_files == self.monitor_files,
            r.monitor_network == self.monitor_network,
            r.session_name == self.session_name,
            r.state == self.state,
    {
        let mut plugin = self;
        plugin.monitor_threads = enabled;
        plugin
    }

    /// The same monitor with file events switched on or off.
    pub fn with_file_monitoring(self, enabled: bool) -> (r: Self)
        ensures
            r.monitor_files == enabled,
            r.name == self.name,
            r.filter_name == self.filter_name,
            r.monitor_threads == self.monitor_threads,
            r.monitor_network == self.monitor_network,
            r.session_name == self.session_name,
            r.state == self.state,
    {
        let mut plugin = self;
        plugin.monitor_files = enabled;
        plugin
    }

    /// The same monitor with network events switched on or off.
    pub fn with_network_monitoring(self, enabled: bool) -> (r: Self)
        ensures
            r.monitor_network == enabled,
            r.name == self.name,
            r.filter_name == self.filter_name,
            r.monitor_threads == self.monitor_threads,
            r.monitor_files == self.monitor_files,
            r.session_name == self.session_name,
            r.state == self.state,
    {
        let mut plugin = self;
        plugin.monitor_network = enabled;
        plugin
    }

    /// The groups of events to ask the kernel for: process events always,
    /// then thread, file and network events as configured.
    pub open spec fn spec_providers(&self) -> Seq<ProviderKind> {
        seq![ProviderKind::Process] + (if self.monitor_threads {
            seq![ProviderKind::Thread]
        } else {
            Seq::empty()
        }) + (if self.monitor_files {
            seq![ProviderKind::File]
        } else {
            Seq::empty()
        }) + (if self.monitor_network {
            seq![ProviderKind::Network]
        } else {
            Seq::empty()
        })
    }

    /// The groups of events to ask the kernel for, in order.
    pub fn providers(&self) -> (r: Vec<ProviderKind>)
        ensures
            r@ == self.spec_providers(),
    {
        let mut out: Vec<ProviderKind> = Vec::new();
        out.push(ProviderKind::Process);
        if self.monitor_threads {
            out.push(ProviderKind::Thread);
        }
        if self.monitor_files {
            out.push(ProviderKind::File);
        }
        if self.monitor_network {
            out.push(ProviderKind::Network);
        }
        assert(out@ =~= self.spec_providers());
        out
    }

    /// Whether a process of the given name passes the name filter: there
    /// is none, or the name contains it, letter case aside.
    pub open spec fn spec_passes_filter(&self, process: Seq<char>) -> bool {
        self.filter_name matches Some(f) ==> crate::text::contains_ignoring_case(process, f@)
    }

    /// Whether a process of the given name passes the name filter.
    pub fn passes_filter(&self, process: &str) -> (r: bool)
        ensures
            r == self.spec_passes_filter(process@),
    {
        match &self.filter_name {
            Some(filter) => crate::text::contains_ignore_case(process, filter.as_str()),
            None => true,
        }
    }

    /// Whether the monitor runs.
    pub fn is_running(&self) -> (r: bool)
        ensures
            r == self.state.spec_is_running(),
    {
        self.state.is_running()
    }

    /// What `start` has to do: nothing where the monitor runs already.
    pub fn start_decision(&self) -> (r: StartDecision)
        ensures
            r == (if self.state.spec_is_running() {
                StartDecision::AlreadyRunning
            } else {
                StartDecision::Launch
            }),
    {
        self.state.on_start()
    }

    /// Takes note of how the launch of the trace session went. `launch`
    /// is `Ok` where the session came up, else it holds the code with
    /// which the system refused it. A monitor whose session came up runs;
    /// else it stays stopped and the result is the error for that code: a
    /// configuration error where a session of that name exists, an
    /// initialization error that names the missing privilege where access
    /// was denied.
    pub fn finish_start(&mut self, launch: Result<(), u32>) -> (r: Result<(), PluginError>)
        ensures
            final(self).name == old(self).name,
            final(self).filter_name == old(self).filter_name,
            final(self).monitor_threads == old(self).monitor_threads,
            final(self).monitor_files == old(self).monitor_files,
            final(self).monitor_network == old(self).monitor_network,
            final(self).session_name == old(self).session_name,
            final(self).state.spec_is_running() == (launch is Ok),
            launch is Ok ==> r is Ok,
            launch matches Err(code) ==> (r matches Err(e) && is_session_error(
                old(self).session_name@,
                code,
                e,
            )),
    {
        match launch {
            Ok(()) => {
                self.state = Lifecycle::Running;
                Ok(())
            },
            Err(code) => {
                self.state = Lifecycle::Stopped;
                Err(session_error(self.session_name.as_str(), code))
            },
        }
    }

    /// Stops the monitor; safe in every state.
    pub fn stop(&mut self)
        ensures
            !final(self).state.spec_is_running(),
            final(self).name == old(self).name,
            final(self).session_name == old(self).session_name,
    {
        self.state = Lifecycle::Stopped;
    }
}

/// The entries of `current` that do not occur in `previous`, in order.
pub open spec fn missing_from(current: Seq<u32>, previous: Seq<u32>) -> Seq<u32> {
    current.filter(|pid: u32| !previous.contains(pid))
}

/// What a polling monitor reports for a new list of live processes: the
/// processes that started and those that stopped since the list before.
/// The first list only sets the baseline.
pub fn diff_snapshots(previous: Option<&Vec<u32>>, current: &Vec<u32>) -> (r: (Vec<u32>, Vec<u32>))
    ensures
        previous is None ==> r.0@.len() == 0 && r.1@.len() == 0,
        previous matches Some(p) ==> r.0@ == missing_from(current@, p@) && r.1@ == missing_from(
            p@,
            current@,
        ),
{
    match previous {
        None => (Vec::new(), Vec::new()),
        Some(p) => (not_in(current, p), not_in(p, current)),
    }
}

fn holds(list: &Vec<u32>, pid: u32) -> (r: bool)
    ensures
        r == list@.contains(pid),
{
    let mut i: usize = 0;
    while i < list.len()
        invariant
            i <= list@.len(),
            forall|k: int| 0 <= k < i ==> list@[k] != pid,
        decreases list@.len() - i,
    {
        if list[i] == pid {
            return true;
        }
        i = i + 1;
    }
    false
}

fn not_in(current: &Vec<u32>, previous: &Vec<u32>) -> (r: Vec<u32>)
    ensures
        r@ == missing_from(current@, previous@),
{
    let ghost pred = |pid: u32| !previous@.contains(pid);
    let mut out: Vec<u32> = Vec::new();
    let mut i: usize = 0;
    proof {
        assert(current@.take(0) =~= Seq::<u32>::empty());
    }
    while i < current.len()
        invariant
            i <= current@.len(),
            pred == (|pid: u32| !previous@.contains(pid)),
            out@ == current@.take(i as int).filter(pred),
        decreases current@.len() - i,
    {
        let pid = current[i];
        proof {
            assert(current@.take(i + 1) =~= current@.take(i as int).push(pid));
            current@.take(i as int).lemma_filter_push(pid, pred);
        }
        if !holds(previous, pid) {
            out.push(pid);
        }
        i = i + 1;
    }
    assert(current@.take(current@.len() as int) =~= current@);
    out
}

} // verus!
