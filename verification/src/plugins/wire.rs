//! Reading trace records: little-endian integers at fixed offsets, and
//! UTF-16 text that ends at a null unit.

use crate::text::{from_utf16_lossy, opt_text, utf16_lossy};
use vstd::prelude::*;
use vstd::slice::slice_subrange;

verus! {

/// The 16-bit little-endian integer at offset `at`.
pub open spec fn le_u16(data: Seq<u8>, at: int) -> u16 {
    (data[at] as int + data[at + 1] as int * 0x100) as u16
}

/// The 32-bit little-endian integer at offset `at`.
pub open spec fn le_u32(data: Seq<u8>, at: int) -> u32 {
    (data[at] as int + data[at + 1] as int * 0x100 + data[at + 2] as int * 0x1_0000 + data[at
        + 3] as int * 0x100_0000) as u32
}

/// The 64-bit little-endian integer at offset `at`.
pub open spec fn le_u64(data: Seq<u8>, at: int) -> u64 {
    (le_u32(data, at) as int + le_u32(data, at + 4) as int * 0x1_0000_0000) as u64
}

/// Reads the 16-bit little-endian integer at offset `at`.
pub fn read_u16(data: &[u8], at: usize) -> (r: u16)
    requires
        at + 2 <= data@.len(),
    ensures
        r == le_u16(data@, at as int),
{
    let low: u16 = data[at] as u16;
    let high: u16 = data[at + 1] as u16;
    low + high * 0x100
}

/// Reads the 32-bit little-endian integer at offset `at`.
pub fn read_u32(data: &[u8], at: usize) -> (r: u32)
    requires
        at + 4 <= data@.len(),
    ensures
        r == le_u32(data@, at as int),
{
    let b0: u32 = data[at] as u32;
    let b1: u32 = data[at + 1] as u32;
    let b2: u32 = data[at + 2] as u32;
    let b3: u32 = data[at + 3] as u32;
    b0 + b1 * 0x100 + b2 * 0x1_0000 + b3 * 0x100_0000
}

/// Reads the 64-bit little-endian integer at offset `at`.
pub fn read_u64(data: &[u8], at: usize) -> (r: u64)
    requires
        at + 8 <= data@.len(),
    ensures
        r == le_u64(data@, at as int),
{
    let total: usize = data.len();
    let low: u64 = read_u32(data, at) as u64;
    let high: u64 = read_u32(data, at + 4) as u64;
    low + high * 0x1_0000_0000
}

/// The UTF-16 code units that the bytes hold, two bytes each, low byte
/// first. A single byte left at the end is not read.
pub open spec fn units_of(data: Seq<u8>) -> Seq<u16> {
    Seq::new(data.len() / 2, |i: int| le_u16(data, 2 * i))
}

/// The code units that the bytes hold.
pub fn decode_units(data: &[u8]) -> (r: Vec<u16>)
    ensures
        r@ == units_of(data@),
{
    let total: usize = data.len();
    let count: usize = total / 2;
    let mut units: Vec<u16> = Vec::new();
    let mut i: usize = 0;
    while i < count
        invariant
            i <= count,
            total == data@.len(),
            count == data@.len() / 2,
            units@.len() == i,
            forall|k: int| 0 <= k < i ==> units@[k] == le_u16(data@, 2 * k),
        decreases count - i,
    {
        units.push(read_u16(data, 2 * i));
        i = i + 1;
    }
    assert(units@ =~= units_of(data@));
    units
}

/// The units before the first null unit, or all of them where there is
/// none.
pub open spec fn until_null(units: Seq<u16>) -> Seq<u16>
    decreases units.len(),
{
    if units.len() == 0 || units[0] == 0 {
        Seq::empty()
    } else {
        seq![units[0]] + until_null(units.drop_first())
    }
}

/// The first `n` units contain no null unit and are therefore the start of
/// the text before the first null.
proof fn lemma_until_null_prefix(units: Seq<u16>, n: int)
    requires
        0 <= n <= units.len(),
        forall|k: int| 0 <= k < n ==> units[k] != 0,
    ensures
        until_null(units) == units.take(n) + until_null(units.skip(n)),
    decreases n,
{
    if n == 0 {
        assert(units.take(0) =~= Seq::<u16>::empty());
        assert(units.skip(0) =~= units);
        assert(units.take(0) + until_null(units.skip(0)) =~= until_null(units));
    } else {
        let rest = units.drop_first();
        assert forall|k: int| 0 <= k < n - 1 implies rest[k] != 0 by {
            assert(rest[k] == units[k + 1]);
        }
        lemma_until_null_prefix(rest, n - 1);
        assert(rest.take(n - 1) =~= units.take(n).drop_first());
        assert(rest.skip(n - 1) =~= units.skip(n));
        assert(units.take(n) =~= seq![units[0]] + rest.take(n - 1));
        assert(until_null(units) =~= units.take(n) + until_null(units.skip(n)));
    }
}

/// The units before the first null unit.
pub fn take_until_null(units: &Vec<u16>) -> (r: Vec<u16>)
    ensures
        r@ == until_null(units@),
{
    let mut out: Vec<u16> = Vec::new();
    let mut i: usize = 0;
    while i < units.len()
        invariant
            i <= units@.len(),
            out@ == units@.take(i as int),
            forall|k: int| 0 <= k < i ==> units@[k] != 0,
        decreases units@.len() - i,
    {
        if units[i] == 0 {
            proof {
                lemma_until_null_prefix(units@, i as int);
                assert(units@.skip(i as int)[0] == 0);
                assert(out@ + Seq::<u16>::empty() =~= out@);
            }
            return out;
        }
        out.push(units[i]);
        i = i + 1;
        assert(out@ =~= units@.take(i as int));
    }
    proof {
        lemma_until_null_prefix(units@, units@.len() as int);
        assert(units@.skip(units@.len() as int) =~= Seq::<u16>::empty());
        assert(out@ + Seq::<u16>::empty() =~= out@);
    }
    out
}

/// Cutting units at null units, after `n` units: the runs that are
/// complete, and the run that is being read. Empty runs are dropped.
pub open spec fn runs_after(units: Seq<u16>, n: int) -> (Seq<Seq<u16>>, Seq<u16>)
    decreases n,
{
    if n <= 0 || n > units.len() {
        (Seq::empty(), Seq::empty())
    } else {
        let (done, current) = runs_after(units, n - 1);
        if units[n - 1] == 0 {
            if current.len() > 0 {
                (done.push(current), Seq::empty())
            } else {
                (done, Seq::empty())
            }
        } else {
            (done, current.push(units[n - 1]))
        }
    }
}

/// The non-empty runs of units between null units, in order.
pub open spec fn runs_of(units: Seq<u16>) -> Seq<Seq<u16>> {
    let (done, current) = runs_after(units, units.len() as int);
    if current.len() > 0 {
        done.push(current)
    } else {
        done
    }
}

/// The texts of the runs: each run decoded as UTF-16, lossily.
pub open spec fn texts_of(runs: Seq<Seq<u16>>) -> Seq<Seq<char>> {
    runs.map_values(|run: Seq<u16>| utf16_lossy(run))
}

/// The texts that stand in the units between null units, in order.
pub fn split_texts(units: &Vec<u16>) -> (r: Vec<String>)
    ensures
        r@.map_values(|s: String| s@) == texts_of(runs_of(units@)),
{
    let mut texts: Vec<String> = Vec::new();
    let mut current: Vec<u16> = Vec::new();
    let mut i: usize = 0;
    while i < units.len()
        invariant
            i <= units@.len(),
            texts@.map_values(|s: String| s@) == texts_of(runs_after(units@, i as int).0),
            current@ == runs_after(units@, i as int).1,
        decreases units@.len() - i,
    {
        let ghost before = texts@.map_values(|s: String| s@);
        let ghost done = runs_after(units@, i as int).0;
        if units[i] == 0 {
            if current.len() > 0 {
                let text = from_utf16_lossy(&current);
                texts.push(text);
                proof {
                    assert(texts@.map_values(|s: String| s@) =~= before.push(
                        utf16_lossy(current@),
                    ));
                    assert(texts_of(done.push(current@)) =~= texts_of(done).push(
                        utf16_lossy(current@),
                    ));
                }
                current = Vec::new();
            }
        } else {
            current.push(units[i]);
        }
        i = i + 1;
    }
    if current.len() > 0 {
        let ghost before = texts@.map_values(|s: String| s@);
        let ghost done = runs_after(units@, units@.len() as int).0;
        let text = from_utf16_lossy(&current);
        texts.push(text);
        proof {
            assert(texts@.map_values(|s: String| s@) =~= before.push(utf16_lossy(current@)));
            assert(texts_of(done.push(current@)) =~= texts_of(done).push(utf16_lossy(current@)));
        }
    }
    texts
}

/// The text at place `i`, if there are that many.
pub open spec fn text_at(texts: Seq<Seq<char>>, i: int) -> Option<Seq<char>> {
    if 0 <= i < texts.len() {
        Some(texts[i])
    } else {
        None
    }
}

/// A copy of the text at place `i`, if there are that many.
pub fn nth_text(texts: &Vec<String>, i: usize) -> (r: Option<String>)
    ensures
        opt_text(r) == text_at(texts@.map_values(|s: String| s@), i as int),
{
    if i < texts.len() {
        Some(texts[i].clone())
    } else {
        None
    }
}

/// The bytes from offset `from` to the end.
pub fn tail(data: &[u8], from: usize) -> (r: &[u8])
    requires
        from <= data@.len(),
    ensures
        r@ == data@.subrange(from as int, data@.len() as int),
{
    slice_subrange(data, from, data.len())
}

} // verus!
