//! Text helpers shared by the rest of the crate: decimal and hexadecimal
//! rendering, substring search, joining, and the few conversions that only
//! the standard library can do.

use vstd::prelude::*;
use vstd::string::*;

verus! {

/// The lower-cased form of a text, as `str::to_lowercase` computes it.
pub uninterp spec fn lowercase(s: Seq<char>) -> Seq<char>;

/// The text that `String::from_utf16_lossy` decodes from UTF-16 code units.
pub uninterp spec fn utf16_lossy(units: Seq<u16>) -> Seq<char>;

/// The final component of a path, as `std::path::Path::file_name` finds it
/// on the platform the crate is built for; `None` where the path has none.
pub uninterp spec fn path_file_name(path: Seq<char>) -> Option<Seq<char>>;

/// Calls `str::to_lowercase`; the result is the lower-cased text by name.
#[verifier::external_body]
pub(crate) fn to_lowercase(s: &str) -> (r: String)
    ensures
        r@ == lowercase(s@),
{
    s.to_lowercase()
}

/// Calls `String::from_utf16_lossy`; the result is the decoded text by name.
#[verifier::external_body]
pub(crate) fn from_utf16_lossy(units: &Vec<u16>) -> (r: String)
    ensures
        r@ == utf16_lossy(units@),
{
    String::from_utf16_lossy(units.as_slice())
}

/// Calls `std::path::Path::file_name`; the component comes back as text.
#[verifier::external_body]
pub(crate) fn file_name_of(path: &str) -> (r: Option<String>)
    ensures
        r is Some <==> path_file_name(path@) is Some,
        r is Some ==> r->0@ == path_file_name(path@)->0,
{
    std::path::Path::new(path).file_name().map(|n| n.to_string_lossy().into_owned())
}

/// Calls `String::push`: the character is added at the end of the text.
#[verifier::external_body]
pub(crate) fn push_char(text: &mut String, c: char)
    ensures
        final(text)@ == old(text)@.push(c),
{
    text.push(c);
}

/// The view of an optional text.
pub open spec fn opt_text(text: Option<String>) -> Option<Seq<char>> {
    match text {
        Some(s) => Some(s@),
        None => None,
    }
}

/// The text that holds exactly these characters, in order.
pub fn string_of(chars: &Vec<char>) -> (r: String)
    ensures
        r@ == chars@,
{
    let mut out = String::new();
    let mut i: usize = 0;
    while i < chars.len()
        invariant
            i <= chars@.len(),
            out@ == chars@.take(i as int),
        decreases chars@.len() - i,
    {
        push_char(&mut out, chars[i]);
        i = i + 1;
        assert(out@ =~= chars@.take(i as int));
    }
    assert(chars@.take(chars@.len() as int) =~= chars@);
    out
}

/// The characters of a text, in order.
pub fn chars_of(s: &str) -> (r: Vec<char>)
    ensures
        r@ == s@,
{
    let n: usize = s.unicode_len();
    let mut out: Vec<char> = Vec::new();
    let mut i: usize = 0;
    while i < n
        invariant
            n == s@.len(),
            i <= n,
            out@ == s@.subrange(0, i as int),
        decreases n - i,
    {
        out.push(s.get_char(i));
        i = i + 1;
        assert(out@ =~= s@.subrange(0, i as int));
    }
    assert(s@.subrange(0, n as int) =~= s@);
    out
}

/// `a` followed by `b`.
pub fn concat2(a: &str, b: &str) -> (r: String)
    ensures
        r@ == a@ + b@,
{
    let mut s = String::from_str(a);
    s.append(b);
    s
}

/// `a`, `b`, `c` one after the other.
pub fn concat3(a: &str, b: &str, c: &str) -> (r: String)
    ensures
        r@ == a@ + b@ + c@,
{
    let mut s = String::from_str(a);
    s.append(b);
    s.append(c);
    s
}

/// Whether two texts hold the same characters.
pub fn str_eq(a: &str, b: &str) -> (r: bool)
    ensures
        r == (a@ == b@),
{
    let x = String::from_str(a);
    let y = String::from_str(b);
    x == y
}

/// The character of one decimal digit.
pub open spec fn digit_char(d: int) -> char {
    if d == 0 {
        '0'
    } else if d == 1 {
        '1'
    } else if d == 2 {
        '2'
    } else if d == 3 {
        '3'
    } else if d == 4 {
        '4'
    } else if d == 5 {
        '5'
    } else if d == 6 {
        '6'
    } else if d == 7 {
        '7'
    } else if d == 8 {
        '8'
    } else {
        '9'
    }
}

/// The decimal digits of a natural number, most significant first, without
/// leading zeros (`0` is "0").
pub open spec fn decimal(n: nat) -> Seq<char>
    decreases n,
{
    if n < 10 {
        seq![digit_char(n as int)]
    } else {
        decimal(n / 10).push(digit_char((n % 10) as int))
    }
}

/// The decimal form of an integer: a minus sign before the digits of a
/// negative one.
pub open spec fn signed_decimal(i: int) -> Seq<char> {
    if i < 0 {
        seq!['-'] + decimal((-i) as nat)
    } else {
        decimal(i as nat)
    }
}

fn digit_of(d: u64) -> (c: char)
    requires
        d < 10,
    ensures
        c == digit_char(d as int),
{
    if d == 0 {
        '0'
    } else if d == 1 {
        '1'
    } else if d == 2 {
        '2'
    } else if d == 3 {
        '3'
    } else if d == 4 {
        '4'
    } else if d == 5 {
        '5'
    } else if d == 6 {
        '6'
    } else if d == 7 {
        '7'
    } else if d == 8 {
        '8'
    } else {
        '9'
    }
}

/// The decimal digits of `n` as characters.
pub fn decimal_chars(n: u64) -> (r: Vec<char>)
    ensures
        r@ == decimal(n as nat),
    decreases n,
{
    if n < 10 {
        let mut out: Vec<char> = Vec::new();
        out.push(digit_of(n));
        assert(out@ =~= seq![digit_char(n as int)]);
        out
    } else {
        let mut out = decimal_chars(n / 10);
        out.push(digit_of(n % 10));
        out
    }
}

/// The decimal form of `n`.
pub fn u64_to_string(n: u64) -> (r: String)
    ensures
        r@ == decimal(n as nat),
{
    let chars = decimal_chars(n);
    string_of(&chars)
}

/// The decimal digits of `n` as characters, for numbers beyond 64 bits.
pub fn wide_decimal_chars(n: u128) -> (r: Vec<char>)
    ensures
        r@ == decimal(n as nat),
    decreases n,
{
    if n < 10 {
        let mut out: Vec<char> = Vec::new();
        out.push(digit_of(n as u64));
        assert(out@ =~= seq![digit_char(n as int)]);
        out
    } else {
        let mut out = wide_decimal_chars(n / 10);
        out.push(digit_of((n % 10) as u64));
        out
    }
}

/// The last `places` decimal digits of `n`, with leading zeros.
pub open spec fn padded_digits(n: nat, places: nat) -> Seq<char>
    decreases places,
{
    if places == 0 {
        Seq::empty()
    } else {
        padded_digits(n / 10, (places - 1) as nat).push(digit_char((n % 10) as int))
    }
}

/// A text without the zeros at its end.
pub open spec fn without_trailing_zeros(s: Seq<char>) -> Seq<char>
    decreases s.len(),
{
    if s.len() > 0 && s.last() == '0' {
        without_trailing_zeros(s.drop_last())
    } else {
        s
    }
}

/// A count of nanoseconds written in seconds, exactly: the whole seconds
/// and, where the rest is not zero, a point and the digits of the
/// fraction without zeros at the end.
pub open spec fn seconds_text(nanos: nat) -> Seq<char> {
    let whole = decimal(nanos / 1_000_000_000);
    let rest = without_trailing_zeros(padded_digits(nanos % 1_000_000_000, 9));
    if rest.len() == 0 {
        whole
    } else {
        whole + seq!['.'] + rest
    }
}

fn padded_chars(n: u64, places: u8) -> (r: Vec<char>)
    ensures
        r@ == padded_digits(n as nat, places as nat),
    decreases places,
{
    if places == 0 {
        Vec::new()
    } else {
        let mut out = padded_chars(n / 10, places - 1);
        out.push(digit_of(n % 10));
        out
    }
}

/// A count of nanoseconds written in seconds.
pub fn seconds_to_string(nanos: u128) -> (r: String)
    ensures
        r@ == seconds_text(nanos as nat),
{
    let mut out = wide_decimal_chars(nanos / 1_000_000_000);
    let mut rest = padded_chars((nanos % 1_000_000_000) as u64, 9);
    let ghost digits = rest@;
    while rest.len() > 0 && rest[rest.len() - 1] == '0'
        invariant
            without_trailing_zeros(rest@) == without_trailing_zeros(digits),
        decreases rest@.len(),
    {
        let ghost before = rest@;
        rest.pop();
        assert(rest@ =~= before.drop_last());
    }
    if rest.len() > 0 {
        let ghost whole = out@;
        let ghost kept = rest@;
        out.push('.');
        out.append(&mut rest);
        assert(out@ =~= whole + seq!['.'] + kept);
    }
    string_of(&out)
}

/// The decimal form of `i`, with a minus sign where it is negative.
pub fn i64_to_string(i: i64) -> (r: String)
    ensures
        r@ == signed_decimal(i as int),
{
    if i < 0 {
        let magnitude: u64 = if i == i64::MIN {
            9223372036854775808u64
        } else {
            (-i) as u64
        };
        let mut out: Vec<char> = Vec::new();
        out.push('-');
        let mut digits = decimal_chars(magnitude);
        out.append(&mut digits);
        assert(out@ =~= seq!['-'] + decimal((-i) as nat));
        string_of(&out)
    } else {
        u64_to_string(i as u64)
    }
}

/// The character of one hexadecimal digit, lower case.
pub open spec fn hex_char(d: int) -> char {
    if d < 10 {
        digit_char(d)
    } else if d == 10 {
        'a'
    } else if d == 11 {
        'b'
    } else if d == 12 {
        'c'
    } else if d == 13 {
        'd'
    } else if d == 14 {
        'e'
    } else {
        'f'
    }
}

/// A byte as two lower-case hexadecimal digits.
pub open spec fn hex_byte(b: u8) -> Seq<char> {
    seq![hex_char(b as int / 16), hex_char(b as int % 16)]
}

fn hex_of(d: u8) -> (c: char)
    requires
        d < 16,
    ensures
        c == hex_char(d as int),
{
    if d < 10 {
        digit_of(d as u64)
    } else if d == 10 {
        'a'
    } else if d == 11 {
        'b'
    } else if d == 12 {
        'c'
    } else if d == 13 {
        'd'
    } else if d == 14 {
        'e'
    } else {
        'f'
    }
}

/// Appends the two hexadecimal digits of `b` to `out`.
pub fn push_hex_byte(out: &mut Vec<char>, b: u8)
    ensures
        final(out)@ == old(out)@ + hex_byte(b),
{
    out.push(hex_of(b / 16));
    out.push(hex_of(b % 16));
    assert(out@ =~= old(out)@ + hex_byte(b));
}

/// Whether `prefix` stands at the start of `s`.
pub open spec fn is_prefix(prefix: Seq<char>, s: Seq<char>) -> bool {
    prefix.len() <= s.len() && s.subrange(0, prefix.len() as int) == prefix
}

/// Whether `needle` stands in `hay` at offset `at`.
pub open spec fn occurs_at(needle: Seq<char>, hay: Seq<char>, at: int) -> bool {
    0 <= at && at + needle.len() <= hay.len() && hay.subrange(at, at + needle.len()) == needle
}

/// Whether `needle` occurs somewhere in `hay`. The empty text occurs in
/// every text.
pub open spec fn is_substring(needle: Seq<char>, hay: Seq<char>) -> bool {
    exists|at: int| occurs_at(needle, hay, at)
}

fn matches_at(needle: &Vec<char>, hay: &Vec<char>, at: usize) -> (r: bool)
    requires
        at + needle@.len() <= hay@.len(),
    ensures
        r == occurs_at(needle@, hay@, at as int),
{
    let total: usize = hay.len();
    let mut j: usize = 0;
    while j < needle.len()
        invariant
            at + needle@.len() <= hay@.len(),
            hay@.len() == total,
            j <= needle@.len(),
            forall|k: int| 0 <= k < j ==> hay@[at + k] == needle@[k],
        decreases needle@.len() - j,
    {
        if hay[at + j] != needle[j] {
            proof {
                let window = hay@.subrange(at as int, at + needle@.len());
                assert(window[j as int] == hay@[at + j]);
            }
            return false;
        }
        j = j + 1;
    }
    assert(hay@.subrange(at as int, at + needle@.len()) =~= needle@);
    true
}

/// Whether `s` starts with `prefix`.
pub fn starts_with_chars(s: &Vec<char>, prefix: &Vec<char>) -> (r: bool)
    ensures
        r == is_prefix(prefix@, s@),
{
    if prefix.len() > s.len() {
        return false;
    }
    matches_at(prefix, s, 0)
}

/// Whether `needle` occurs in `hay`.
pub fn contains_chars(hay: &Vec<char>, needle: &Vec<char>) -> (r: bool)
    ensures
        r == is_substring(needle@, hay@),
{
    if needle.len() > hay.len() {
        assert(forall|at: int| !occurs_at(needle@, hay@, at));
        return false;
    }
    if needle.len() == 0 {
        assert(hay@.subrange(0, 0) =~= needle@);
        assert(occurs_at(needle@, hay@, 0));
        return true;
    }
    let last: usize = hay.len() - needle.len();
    let mut at: usize = 0;
    while at <= last
        invariant
            last == hay@.len() - needle@.len(),
            last < usize::MAX,
            at <= last + 1,
            forall|k: int| 0 <= k < at ==> !occurs_at(needle@, hay@, k),
        decreases last + 1 - at,
    {
        if matches_at(needle, hay, at) {
            return true;
        }
        at = at + 1;
    }
    assert(forall|k: int| !occurs_at(needle@, hay@, k));
    false
}

/// Whether `s` starts with `prefix`.
pub fn starts_with(s: &str, prefix: &str) -> (r: bool)
    ensures
        r == is_prefix(prefix@, s@),
{
    let a = chars_of(s);
    let b = chars_of(prefix);
    starts_with_chars(&a, &b)
}

/// Whether `needle` occurs in `hay`.
pub fn contains(hay: &str, needle: &str) -> (r: bool)
    ensures
        r == is_substring(needle@, hay@),
{
    let a = chars_of(hay);
    let b = chars_of(needle);
    contains_chars(&a, &b)
}

/// Whether `needle` occurs in `hay` when both are lower-cased.
pub open spec fn contains_ignoring_case(hay: Seq<char>, needle: Seq<char>) -> bool {
    is_substring(lowercase(needle), lowercase(hay))
}

/// Case-insensitive substring test: both texts are lower-cased first.
pub fn contains_ignore_case(hay: &str, needle: &str) -> (r: bool)
    ensures
        r == contains_ignoring_case(hay@, needle@),
{
    let h = to_lowercase(hay);
    let n = to_lowercase(needle);
    contains(h.as_str(), n.as_str())
}

/// The texts of `parts` with `sep` between each two neighbours.
pub open spec fn joined(parts: Seq<Seq<char>>, sep: Seq<char>) -> Seq<char>
    decreases parts.len(),
{
    if parts.len() == 0 {
        Seq::empty()
    } else if parts.len() == 1 {
        parts[0]
    } else {
        joined(parts.drop_last(), sep) + sep + parts.last()
    }
}

/// The views of a list of strings.
pub open spec fn views(parts: Seq<String>) -> Seq<Seq<char>> {
    parts.map_values(|s: String| s@)
}

/// Joins `parts` with `sep` between neighbours.
pub fn join(parts: &Vec<String>, sep: &str) -> (r: String)
    ensures
        r@ == joined(views(parts@), sep@),
{
    let mut out = String::new();
    let mut i: usize = 0;
    while i < parts.len()
        invariant
            i <= parts@.len(),
            out@ == joined(views(parts@).take(i as int), sep@),
        decreases parts@.len() - i,
    {
        proof {
            let pre = views(parts@).take(i as int);
            let next = views(parts@).take(i + 1);
            assert(next.drop_last() =~= pre);
            assert(next.last() == parts@[i as int]@);
        }
        if i > 0 {
            out.append(sep);
        }
        out.append(parts[i].as_str());
        i = i + 1;
    }
    assert(views(parts@).take(parts@.len() as int) =~= views(parts@));
    out
}

} // verus!
