//! Label sets and the canonical key of a metric: the name alone where
//! there are no labels, else the name and the labels sorted by key.

use crate::text::{chars_of, concat3, joined, string_of};
use vstd::prelude::*;
use vstd::string::*;

verus! {

/// Whether `a` stands before `b` in the order of texts: at the first place
/// where they differ `a` has the smaller character, or `a` ends there and
/// `b` goes on.
pub open spec fn text_before(a: Seq<char>, b: Seq<char>) -> bool {
    exists|i: int|
        0 <= i <= a.len() && i <= b.len() && #[trigger] a.take(i) == b.take(i) && (if i == a.len() {
            i < b.len()
        } else {
            i < b.len() && a[i] < b[i]
        })
}

/// How two texts stand to each other.
#[derive(Debug, Clone, Copy, PartialEq, Eq, Structural)]
pub enum Standing {
    Before,
    Same,
    After,
}

/// How `a` stands to `b` in the order of texts: exactly one of the three
/// holds of any two texts.
pub fn collate(a: &Vec<char>, b: &Vec<char>) -> (r: Standing)
    ensures
        r == Standing::Before <==> text_before(a@, b@),
        r == Standing::Same <==> a@ == b@,
        r == Standing::After <==> text_before(b@, a@),
{
    let r = collate_with(a, b);
    proof {
        match r {
            Standing::Before => {
                lemma_before_excludes(a@, b@);
            },
            Standing::Same => {
                lemma_before_excludes_same(a@);
            },
            Standing::After => {
                lemma_before_excludes(b@, a@);
            },
        }
    }
    r
}

fn collate_with(a: &Vec<char>, b: &Vec<char>) -> (r: Standing)
    ensures
        r == Standing::Before ==> text_before(a@, b@),
        r == Standing::Same ==> a@ == b@,
        r == Standing::After ==> text_before(b@, a@),
{
    let mut i: usize = 0;
    while i < a.len() && i < b.len()
        invariant
            i <= a@.len(),
            i <= b@.len(),
            a@.take(i as int) == b@.take(i as int),
        decreases a@.len() - i,
    {
        let x: char = a[i];
        let y: char = b[i];
        if x < y {
            return Standing::Before;
        }
        if y < x {
            return Standing::After;
        }
        assert(a@[i as int] == b@[i as int]);
        assert(a@.take(i + 1) =~= a@.take(i as int).push(a@[i as int]));
        assert(b@.take(i + 1) =~= b@.take(i as int).push(b@[i as int]));
        i = i + 1;
    }
    if i < b.len() {
        Standing::Before
    } else if i < a.len() {
        Standing::After
    } else {
        assert(a@.take(i as int) =~= a@);
        assert(b@.take(i as int) =~= b@);
        Standing::Same
    }
}

/// Whether the keys of the entries ascend strictly from each entry to the
/// next.
pub open spec fn ascending(entries: Seq<(String, String)>) -> bool {
    forall|i: int|
        0 <= i < entries.len() - 1 ==> text_before(
            (#[trigger] entries[i]).0@,
            entries[i + 1].0@,
        )
}

/// The entries as pairs of texts.
pub open spec fn pairs_of(entries: Seq<(String, String)>) -> Seq<(Seq<char>, Seq<char>)> {
    entries.map_values(|e: (String, String)| (e.0@, e.1@))
}

/// A set of labels, kept sorted by key.
#[derive(Debug)]
pub struct Labels {
    entries: Vec<(String, String)>,
}

impl View for Labels {
    type V = Seq<(Seq<char>, Seq<char>)>;

    closed spec fn view(&self) -> Seq<(Seq<char>, Seq<char>)> {
        pairs_of(self.entries@)
    }
}

/// Whether the keys of the pairs ascend strictly from each pair to the
/// next.
pub open spec fn sorted_pairs(pairs: Seq<(Seq<char>, Seq<char>)>) -> bool {
    forall|i: int| 0 <= i < pairs.len() - 1 ==> text_before((#[trigger] pairs[i]).0, pairs[i + 1].0)
}

/// The place at which a key stands or belongs among sorted pairs: that of
/// the first pair whose key does not stand before it.
pub open spec fn place_of(pairs: Seq<(Seq<char>, Seq<char>)>, key: Seq<char>) -> int
    decreases pairs.len(),
{
    if pairs.len() == 0 || !text_before(pairs[0].0, key) {
        0
    } else {
        1 + place_of(pairs.drop_first(), key)
    }
}

/// The pairs with `key` bound to `value`: the value replaces the one of a
/// pair with that key, else the pair is put in at its sorted place.
pub open spec fn with_pair(pairs: Seq<(Seq<char>, Seq<char>)>, key: Seq<char>, value: Seq<char>) -> Seq<
    (Seq<char>, Seq<char>),
> {
    let at = place_of(pairs, key);
    if at < pairs.len() && pairs[at].0 == key {
        pairs.update(at, (key, value))
    } else {
        pairs.insert(at, (key, value))
    }
}

/// The first place whose key does not stand before `key` is the place of
/// `key`.
proof fn lemma_place_found(pairs: Seq<(Seq<char>, Seq<char>)>, key: Seq<char>, at: int)
    requires
        0 <= at <= pairs.len(),
        forall|i: int| 0 <= i < at ==> text_before((#[trigger] pairs[i]).0, key),
        at < pairs.len() ==> !text_before(pairs[at].0, key),
    ensures
        place_of(pairs, key) == at,
    decreases pairs.len(),
{
    if at == 0 {
    } else {
        assert(text_before(pairs[0].0, key));
        let tail = pairs.drop_first();
        assert forall|i: int| 0 <= i < at - 1 implies text_before((#[trigger] tail[i]).0, key) by {
            assert(tail[i] == pairs[i + 1]);
        }
        if at - 1 < tail.len() {
            assert(tail[at - 1] == pairs[at]);
        }
        lemma_place_found(tail, key, at - 1);
    }
}

/// A text does not stand before itself.
pub proof fn lemma_before_excludes_same(a: Seq<char>)
    ensures
        !text_before(a, a),
{
}

/// Where `a` stands before `b`, `b` does not stand before `a`, and the two
/// differ.
pub proof fn lemma_before_excludes(a: Seq<char>, b: Seq<char>)
    requires
        text_before(a, b),
    ensures
        !text_before(b, a),
        a != b,
{
    let i = choose|i: int|
        0 <= i <= a.len() && i <= b.len() && #[trigger] a.take(i) == b.take(i) && (if i == a.len() {
            i < b.len()
        } else {
            i < b.len() && a[i] < b[i]
        });
    if text_before(b, a) {
        let j = choose|j: int|
            0 <= j <= b.len() && j <= a.len() && #[trigger] b.take(j) == a.take(j) && (if j
                == b.len() {
                j < a.len()
            } else {
                j < a.len() && b[j] < a[j]
            });
        if i < j {
            assert(b.take(j)[i] == a.take(j)[i]);
        } else if j < i {
            assert(a.take(i)[j] == b.take(i)[j]);
        }
    }
    if a == b {
        lemma_before_excludes_same(a);
    }
}

impl Clone for Labels {
    /// A copy with the same labels.
    fn clone(&self) -> (r: Self)
        ensures
            r@ == self@,
    {
        proof {
            use_type_invariant(self);
        }
        let mut entries: Vec<(String, String)> = Vec::new();
        let mut i: usize = 0;
        while i < self.entries.len()
            invariant
                i <= self.entries@.len(),
                entries@ == self.entries@.subrange(0, i as int),
            decreases self.entries@.len() - i,
        {
            entries.push((self.entries[i].0.clone(), self.entries[i].1.clone()));
            i = i + 1;
            assert(entries@ =~= self.entries@.subrange(0, i as int));
        }
        assert(entries@ =~= self.entries@);
        Labels { entries }
    }
}

impl Labels {
    #[verifier::type_invariant]
    closed spec fn well_formed(&self) -> bool {
        ascending(self.entries@)
    }

    /// No labels.
    pub fn new() -> (r: Self)
        ensures
            r@.len() == 0,
    {
        Labels { entries: Vec::new() }
    }

    /// The number of labels.
    pub fn len(&self) -> (n: usize)
        ensures
            n == self@.len(),
    {
        self.entries.len()
    }

    /// Whether there are no labels.
    pub fn is_empty(&self) -> (r: bool)
        ensures
            r == (self@.len() == 0),
    {
        self.entries.len() == 0
    }

    /// Binds the key to the value, in place of the value it had or at the
    /// key's place in the order.
    pub fn insert(&mut self, key: &str, value: &str)
        ensures
            final(self)@ == with_pair(old(self)@, key@, value@),
            sorted_pairs(final(self)@),
    {
        proof {
            use_type_invariant(&*self);
        }
        let wanted = chars_of(key);
        let ghost before = self.entries@;
        let mut at: usize = 0;
        let mut standing = Standing::Before;
        while at < self.entries.len() && standing == Standing::Before
            invariant
                at <= self.entries@.len(),
                self.entries@ == before,
                wanted@ == key@,
                forall|i: int| 0 <= i < at ==> text_before((#[trigger] before[i]).0@, key@),
                standing == Standing::Same ==> at < before.len() && before[at as int].0@ == key@,
                standing == Standing::After ==> at < before.len() && text_before(
                    key@,
                    before[at as int].0@,
                ),
            decreases self.entries@.len() - at, (if standing == Standing::Before {
                    1int
                } else {
                    0int
                }),
        {
            let held = chars_of(self.entries[at].0.as_str());
            match collate(&held, &wanted) {
                Standing::Before => {
                    at = at + 1;
                },
                Standing::Same => {
                    standing = Standing::Same;
                },
                Standing::After => {
                    standing = Standing::After;
                },
            }
        }
        let mut entries: Vec<(String, String)> = Vec::new();
        std::mem::swap(&mut self.entries, &mut entries);
        let new_key = String::from_str(key);
        let new_value = String::from_str(value);
        let ghost pairs = pairs_of(before);
        proof {
            assert forall|i: int| 0 <= i < at implies text_before((#[trigger] pairs[i]).0, key@) by {
                assert(text_before(before[i].0@, key@));
            }
        }
        if standing == Standing::Same {
            entries.set(at, (new_key, new_value));
            proof {
                lemma_before_excludes_same(key@);
                lemma_place_found(pairs, key@, at as int);
                assert(pairs_of(entries@) =~= pairs.update(at as int, (key@, value@)));
                assert forall|i: int| 0 <= i < entries@.len() - 1 implies text_before(
                    (#[trigger] entries@[i]).0@,
                    entries@[i + 1].0@,
                ) by {
                    assert(text_before(before[i].0@, before[i + 1].0@));
                    assert(entries@[i].0@ == before[i].0@);
                    assert(entries@[i + 1].0@ == before[i + 1].0@);
                }
            }
        } else {
            entries.insert(at, (new_key, new_value));
            proof {
                if at < before.len() {
                    lemma_before_excludes(key@, before[at as int].0@);
                    assert(pairs[at as int].0 == before[at as int].0@);
                }
                lemma_place_found(pairs, key@, at as int);
                assert(pairs_of(entries@) =~= pairs.insert(at as int, (key@, value@)));
                assert forall|i: int| 0 <= i < entries@.len() - 1 implies text_before(
                    (#[trigger] entries@[i]).0@,
                    entries@[i + 1].0@,
                ) by {
                    if i + 1 < at {
                        assert(text_before(before[i].0@, before[i + 1].0@));
                    } else if i + 1 == at {
                        assert(text_before(before[i].0@, key@));
                    } else if i == at {
                        assert(entries@[i + 1] == before[i]);
                    } else {
                        assert(entries@[i] == before[i - 1]);
                        assert(entries@[i + 1] == before[i]);
                        assert(text_before(before[i - 1].0@, before[i].0@));
                    }
                }
            }
        }
        proof {
            let after = entries@;
            assert forall|i: int| 0 <= i < pairs_of(after).len() - 1 implies text_before(
                (#[trigger] pairs_of(after)[i]).0,
                pairs_of(after)[i + 1].0,
            ) by {
                assert(text_before(after[i].0@, after[i + 1].0@));
            }
        }
        std::mem::swap(&mut self.entries, &mut entries);
    }

    /// The labels as pairs of key and value, sorted by key.
    pub fn entries(&self) -> (r: &Vec<(String, String)>)
        ensures
            pairs_of(r@) == self@,
            sorted_pairs(self@),
    {
        proof {
            use_type_invariant(self);
            assert forall|i: int| 0 <= i < self@.len() - 1 implies text_before(
                (#[trigger] self@[i]).0,
                self@[i + 1].0,
            ) by {
                assert(text_before(self.entries@[i].0@, self.entries@[i + 1].0@));
            }
        }
        &self.entries
    }
}

/// The labels as texts `key=value`, in order.
pub open spec fn plain_parts(pairs: Seq<(Seq<char>, Seq<char>)>) -> Seq<Seq<char>> {
    pairs.map_values(|p: (Seq<char>, Seq<char>)| p.0 + "="@ + p.1)
}

/// The labels as texts `key="value"`, in order.
pub open spec fn quoted_parts(pairs: Seq<(Seq<char>, Seq<char>)>) -> Seq<Seq<char>> {
    pairs.map_values(|p: (Seq<char>, Seq<char>)| p.0 + "=\""@ + p.1 + "\""@)
}

/// The canonical key of a metric: the name where there are no labels,
/// else the name, then `:{`, the labels as `key=value` with commas between
/// them, and `}`.
pub open spec fn key_text(name: Seq<char>, pairs: Seq<(Seq<char>, Seq<char>)>) -> Seq<char> {
    if pairs.len() == 0 {
        name
    } else {
        name + ":{"@ + joined(plain_parts(pairs), ","@) + "}"@
    }
}

/// The labels as they stand behind a metric's name in the text form:
/// nothing where there are none, else the labels as `key="value"` with
/// commas between them, in braces.
pub open spec fn label_text(pairs: Seq<(Seq<char>, Seq<char>)>) -> Seq<char> {
    if pairs.len() == 0 {
        Seq::empty()
    } else {
        "{"@ + joined(quoted_parts(pairs), ","@) + "}"@
    }
}

/// The canonical key of a metric.
pub fn build_key(name: &str, labels: &Labels) -> (r: String)
    ensures
        r@ == key_text(name@, labels@),
{
    let entries = labels.entries();
    if entries.len() == 0 {
        return String::from_str(name);
    }
    let mut parts: Vec<String> = Vec::new();
    let mut i: usize = 0;
    while i < entries.len()
        invariant
            i <= entries@.len(),
            parts@.len() == i,
            forall|k: int|
                0 <= k < i ==> (#[trigger] parts@[k])@ == plain_parts(pairs_of(entries@))[k],
        decreases entries@.len() - i,
    {
        parts.push(concat3(entries[i].0.as_str(), "=", entries[i].1.as_str()));
        i = i + 1;
    }
    assert(crate::text::views(parts@) =~= plain_parts(pairs_of(entries@)));
    let inner = crate::text::join(&parts, ",");
    let mut out = concat3(name, ":{", inner.as_str());
    out.append("}");
    out
}

/// The labels as they stand behind a metric's name in the text form.
pub fn format_labels(labels: &Labels) -> (r: String)
    ensures
        r@ == label_text(labels@),
{
    let entries = labels.entries();
    if entries.len() == 0 {
        return String::new();
    }
    let mut parts: Vec<String> = Vec::new();
    let mut i: usize = 0;
    while i < entries.len()
        invariant
            i <= entries@.len(),
            parts@.len() == i,
            forall|k: int|
                0 <= k < i ==> (#[trigger] parts@[k])@ == quoted_parts(pairs_of(entries@))[k],
        decreases entries@.len() - i,
    {
        let mut part = concat3(entries[i].0.as_str(), "=\"", entries[i].1.as_str());
        part.append("\"");
        parts.push(part);
        i = i + 1;
    }
    assert(crate::text::views(parts@) =~= quoted_parts(pairs_of(entries@)));
    let inner = crate::text::join(&parts, ",");
    concat3("{", inner.as_str(), "}")
}

/// The place of the first `c` in the text; the length of the text where
/// there is none.
pub open spec fn first_index(text: Seq<char>, c: char) -> int
    decreases text.len(),
{
    if text.len() == 0 || text[0] == c {
        0
    } else {
        1 + first_index(text.drop_first(), c)
    }
}

/// A place before which no `c` stands and at which the text ends or a `c`
/// stands is the place of the first `c`.
pub proof fn lemma_first_index(text: Seq<char>, c: char, at: int)
    requires
        0 <= at <= text.len(),
        forall|k: int| 0 <= k < at ==> text[k] != c,
        at < text.len() ==> text[at] == c,
    ensures
        first_index(text, c) == at,
    decreases text.len(),
{
    if at > 0 {
        let tail = text.drop_first();
        assert forall|k: int| 0 <= k < at - 1 implies tail[k] != c by {
            assert(tail[k] == text[k + 1]);
        }
        if at - 1 < tail.len() {
            assert(tail[at - 1] == text[at]);
        }
        lemma_first_index(tail, c, at - 1);
    }
}

/// The place of the first `c` among the characters from `from` on,
/// counted from `from`.
fn find_char(chars: &Vec<char>, from: usize, to: usize, c: char) -> (r: usize)
    requires
        from <= to <= chars@.len(),
    ensures
        r == first_index(chars@.subrange(from as int, to as int), c),
        r <= to - from,
{
    let mut i: usize = from;
    while i < to && chars[i] != c
        invariant
            from <= i <= to,
            to <= chars@.len(),
            forall|k: int| from <= k < i ==> chars@[k] != c,
        decreases to - i,
    {
        i = i + 1;
    }
    proof {
        let part = chars@.subrange(from as int, to as int);
        assert forall|k: int| 0 <= k < i - from implies part[k] != c by {
            assert(part[k] == chars@[from + k]);
        }
        lemma_first_index(part, c, i - from);
    }
    i - from
}

fn text_of(chars: &Vec<char>, from: usize, to: usize) -> (r: String)
    requires
        from <= to <= chars@.len(),
    ensures
        r@ == chars@.subrange(from as int, to as int),
{
    let mut out: Vec<char> = Vec::new();
    let mut i: usize = from;
    while i < to
        invariant
            from <= i <= to,
            to <= chars@.len(),
            out@ == chars@.subrange(from as int, i as int),
        decreases to - i,
    {
        out.push(chars[i]);
        i = i + 1;
        assert(out@ =~= chars@.subrange(from as int, i as int));
    }
    string_of(&out)
}

/// Whether one of the pairs has the key.
pub open spec fn has_label(pairs: Seq<(Seq<char>, Seq<char>)>, key: Seq<char>) -> bool {
    exists|i: int| 0 <= i < pairs.len() && (#[trigger] pairs[i]).0 == key
}

/// The labels that a text of the form `k1=v1,k2=v2` holds: the text is cut
/// at commas; a part with an equals sign binds what stands before the
/// first one to what stands after it; other parts bind nothing. A key
/// that comes again takes the later value.
pub open spec fn labels_in(text: Seq<char>) -> Seq<(Seq<char>, Seq<char>)>
    decreases text.len(),
{
    let comma = first_index(text, ',');
    let part = text.take(comma);
    let equals = first_index(part, '=');
    let rest = if 0 <= comma < text.len() {
        labels_in(text.skip(comma + 1))
    } else {
        Seq::empty()
    };
    if equals < part.len() {
        let own = (part.take(equals), part.skip(equals + 1));
        if has_label(rest, own.0) {
            rest
        } else {
            with_pair(rest, own.0, own.1)
        }
    } else {
        rest
    }
}

/// What a key splits into: the name before the first colon and the labels
/// that stand in braces behind it. A key without colon, and one that is
/// too short to hold braces behind its colon, is a name without labels.
pub open spec fn parsed_key(key: Seq<char>) -> (Seq<char>, Seq<(Seq<char>, Seq<char>)>) {
    let colon = first_index(key, ':');
    if colon + 3 <= key.len() {
        (key.take(colon), labels_in(key.subrange(colon + 2, key.len() - 1)))
    } else {
        (key, Seq::empty())
    }
}

fn holds_label(labels: &Labels, key: &str) -> (r: bool)
    ensures
        r == has_label(labels@, key@),
{
    let entries = labels.entries();
    let mut i: usize = 0;
    while i < entries.len()
        invariant
            i <= entries@.len(),
            pairs_of(entries@) == labels@,
            forall|k: int| 0 <= k < i ==> (#[trigger] labels@[k]).0 != key@,
        decreases entries@.len() - i,
    {
        if crate::text::str_eq(entries[i].0.as_str(), key) {
            assert(labels@[i as int].0 == key@);
            return true;
        }
        i = i + 1;
    }
    false
}

fn parse_labels(chars: &Vec<char>, from: usize, to: usize) -> (r: Labels)
    requires
        from <= to <= chars@.len(),
    ensures
        r@ == labels_in(chars@.subrange(from as int, to as int)),
    decreases to - from,
{
    let ghost text = chars@.subrange(from as int, to as int);
    let comma = find_char(chars, from, to, ',');
    let part_end: usize = from + comma;
    proof {
        assert(text.take(comma as int) =~= chars@.subrange(from as int, part_end as int));
    }
    let equals = find_char(chars, from, part_end, '=');
    let ghost part = text.take(comma as int);
    let ghost rest = if 0 <= comma < text.len() {
        labels_in(text.skip(comma + 1))
    } else {
        Seq::empty()
    };
    let mut labels = if part_end < to {
        proof {
            assert(text.skip(comma + 1) =~= chars@.subrange(part_end + 1, to as int));
        }
        parse_labels(chars, part_end + 1, to)
    } else {
        Labels::new()
    };
    assert(labels@ =~= rest);
    assert(equals == first_index(part, '='));
    if from + equals < part_end {
        let key = text_of(chars, from, from + equals);
        let value = text_of(chars, from + equals + 1, part_end);
        proof {
            let part = text.take(comma as int);
            assert(part.take(equals as int) =~= key@);
            assert(part.skip(equals + 1) =~= value@);
        }
        if !holds_label(&labels, key.as_str()) {
            labels.insert(key.as_str(), value.as_str());
        }
    }
    labels
}

/// Splits a key into the name and the labels.
pub fn parse_key(key: &str) -> (r: (String, Labels))
    ensures
        r.0@ == parsed_key(key@).0,
        r.1@ == parsed_key(key@).1,
{
    let chars = chars_of(key);
    let total: usize = chars.len();
    let colon = find_char(&chars, 0, total, ':');
    proof {
        assert(chars@.subrange(0, total as int) =~= key@);
    }
    if total >= 3 && colon <= total - 3 {
        let name = text_of(&chars, 0, colon);
        proof {
            assert(key@.take(colon as int) =~= chars@.subrange(0, colon as int));
        }
        let labels = parse_labels(&chars, colon + 2, total - 1);
        (name, labels)
    } else {
        (String::from_str(key), Labels::new())
    }
}

/// The order of texts is transitive.
pub proof fn lemma_before_chain(a: Seq<char>, b: Seq<char>, c: Seq<char>)
    requires
        text_before(a, b),
        text_before(b, c),
    ensures
        text_before(a, c),
{
    let i = choose|i: int|
        0 <= i <= a.len() && i <= b.len() && #[trigger] a.take(i) == b.take(i) && (if i == a.len() {
            i < b.len()
        } else {
            i < b.len() && a[i] < b[i]
        });
    let j = choose|j: int|
        0 <= j <= b.len() && j <= c.len() && #[trigger] b.take(j) == c.take(j) && (if j == b.len() {
            j < c.len()
        } else {
            j < c.len() && b[j] < c[j]
        });
    let m = if i <= j {
        i
    } else {
        j
    };
    assert(a.take(m) =~= c.take(m)) by {
        assert forall|k: int| 0 <= k < m implies a[k] == c[k] by {
            assert(a.take(i)[k] == b.take(i)[k]);
            assert(b.take(j)[k] == c.take(j)[k]);
        }
    }
    if i < j {
        assert(b.take(j)[i] == c.take(j)[i]);
    } else if j < i {
        assert(a.take(i)[j] == b.take(i)[j]);
    }
    assert(a.take(m) == c.take(m) && (if m == a.len() {
        m < c.len()
    } else {
        m < c.len() && a[m] < c[m]
    }));
}

/// Among sorted pairs every key stands before every later key.
pub proof fn lemma_sorted_apart(pairs: Seq<(Seq<char>, Seq<char>)>, i: int, j: int)
    requires
        sorted_pairs(pairs),
        0 <= i < j < pairs.len(),
    ensures
        text_before(pairs[i].0, pairs[j].0),
        pairs[i].0 != pairs[j].0,
    decreases j - i,
{
    if j == i + 1 {
        assert(text_before(pairs[i].0, pairs[i + 1].0));
    } else {
        lemma_sorted_apart(pairs, i, j - 1);
        assert(text_before(pairs[j - 1].0, pairs[j].0));
        lemma_before_chain(pairs[i].0, pairs[j - 1].0, pairs[j].0);
    }
    lemma_before_excludes(pairs[i].0, pairs[j].0);
}

/// Joining two or more parts puts the first part, then the separator,
/// before the other parts joined.
pub proof fn lemma_joined_front(parts: Seq<Seq<char>>, sep: Seq<char>)
    requires
        parts.len() >= 2,
    ensures
        joined(parts, sep) == parts[0] + sep + joined(parts.drop_first(), sep),
    decreases parts.len(),
{
    let tail = parts.drop_first();
    if parts.len() == 2 {
        assert(parts.drop_last() =~= seq![parts[0]]);
        assert(joined(parts.drop_last(), sep) == parts[0]);
        assert(tail =~= seq![parts[1]]);
        assert(joined(tail, sep) == parts[1]);
    } else {
        lemma_joined_front(parts.drop_last(), sep);
        assert(parts.drop_last().drop_first() =~= tail.drop_last());
        assert(tail.last() == parts.last());
        assert(joined(parts, sep) =~= parts[0] + sep + joined(tail, sep));
    }
}

/// Whether a name and labels can be read back from their key: the name
/// holds no colon, no label's key holds an equals sign or a comma, and no
/// label's value holds a comma.
pub open spec fn readable(name: Seq<char>, pairs: Seq<(Seq<char>, Seq<char>)>) -> bool {
    &&& !name.contains(':')
    &&& forall|i: int|
        0 <= i < pairs.len() ==> !(#[trigger] pairs[i]).0.contains('=') && !pairs[i].0.contains(',')
            && !pairs[i].1.contains(',')
}

/// Sorted labels that hold no separator in the wrong place are read back
/// from their text as they were.
pub proof fn lemma_labels_round_trip(pairs: Seq<(Seq<char>, Seq<char>)>)
    requires
        pairs.len() > 0,
        sorted_pairs(pairs),
        readable(Seq::empty(), pairs),
    ensures
        labels_in(joined(plain_parts(pairs), ","@)) == pairs,
    decreases pairs.len(),
{
    let parts = plain_parts(pairs);
    let text = joined(parts, ","@);
    let key = pairs[0].0;
    let value = pairs[0].1;
    let head = key + "="@ + value;
    assert(parts[0] == head);
    reveal_strlit(",");
    reveal_strlit("=");
    assert(","@ =~= seq![',']);
    assert("="@ =~= seq!['=']);
    assert forall|k: int| 0 <= k < head.len() implies head[k] != ',' by {
        if k < key.len() {
            assert(key.contains(head[k]));
        } else if k > key.len() {
            assert(value[k - key.len() - 1] == head[k]);
            assert(value.contains(head[k]));
        }
    }
    assert forall|k: int| 0 <= k < key.len() implies head[k] != '=' by {
        assert(key.contains(head[k]));
    }
    assert(head[key.len() as int] == '=');
    let tail = pairs.drop_first();
    if pairs.len() == 1 {
        assert(parts =~= seq![head]);
        assert(text == head);
        lemma_first_index(text, ',', text.len() as int);
    } else {
        lemma_joined_front(parts, ","@);
        assert(parts.drop_first() =~= plain_parts(tail));
        assert(text == head + ","@ + joined(plain_parts(tail), ","@));
        assert forall|k: int| 0 <= k < head.len() implies text[k] != ',' by {
            assert(text[k] == head[k]);
        }
        assert(text[head.len() as int] == ',');
        lemma_first_index(text, ',', head.len() as int);
        assert(text.skip(head.len() as int + 1) =~= joined(plain_parts(tail), ","@));
        assert forall|i: int| 0 <= i < tail.len() - 1 implies text_before(
            (#[trigger] tail[i]).0,
            tail[i + 1].0,
        ) by {
            assert(text_before(pairs[i + 1].0, pairs[i + 2].0));
        }
        assert forall|i: int| 0 <= i < tail.len() implies !(#[trigger] tail[i]).0.contains('=')
            && !tail[i].0.contains(',') && !tail[i].1.contains(',') by {
            assert(tail[i] == pairs[i + 1]);
        }
        lemma_labels_round_trip(tail);
    }
    let comma = first_index(text, ',');
    assert(comma == head.len());
    let part = text.take(comma);
    assert(part =~= head);
    lemma_first_index(part, '=', key.len() as int);
    assert(part.take(key.len() as int) =~= key);
    assert(part.skip(key.len() as int + 1) =~= value);
    let rest = if 0 <= comma < text.len() {
        labels_in(text.skip(comma + 1))
    } else {
        Seq::empty()
    };
    assert(rest == tail) by {
        if pairs.len() == 1 {
            assert(tail =~= Seq::<(Seq<char>, Seq<char>)>::empty());
        }
    }
    assert(!has_label(rest, key)) by {
        if has_label(rest, key) {
            let i = choose|i: int| 0 <= i < rest.len() && (#[trigger] rest[i]).0 == key;
            assert(tail[i] == pairs[i + 1]);
            lemma_sorted_apart(pairs, 0, i + 1);
        }
    }
    assert(place_of(tail, key) == 0) by {
        if tail.len() > 0 {
            assert(tail[0] == pairs[1]);
            lemma_sorted_apart(pairs, 0, 1);
            lemma_before_excludes(key, tail[0].0);
        }
    }
    assert(with_pair(tail, key, value) =~= pairs) by {
        if tail.len() > 0 {
            assert(tail[0] == pairs[1]);
            lemma_sorted_apart(pairs, 0, 1);
        }
    }
}

/// A key is read back as the name and the labels it was built from: where
/// the labels are sorted and neither they nor the name hold a separator
/// in the wrong place, parsing the key gives both back.
pub proof fn lemma_key_round_trip(name: Seq<char>, pairs: Seq<(Seq<char>, Seq<char>)>)
    requires
        sorted_pairs(pairs),
        readable(name, pairs),
    ensures
        parsed_key(key_text(name, pairs)) == (name, pairs),
{
    let key = key_text(name, pairs);
    assert forall|k: int| 0 <= k < name.len() implies name[k] != ':' by {
        assert(name.contains(name[k]));
    }
    if pairs.len() == 0 {
        lemma_first_index(key, ':', key.len() as int);
        assert(pairs =~= Seq::<(Seq<char>, Seq<char>)>::empty());
    } else {
        let inner = joined(plain_parts(pairs), ","@);
        reveal_strlit(":{");
        reveal_strlit("}");
        assert(":{"@ =~= seq![':', '{']);
        assert("}"@ =~= seq!['}']);
        assert(key == name + ":{"@ + inner + "}"@);
        assert forall|k: int| 0 <= k < name.len() implies key[k] != ':' by {
            assert(key[k] == name[k]);
        }
        assert(key[name.len() as int] == ':');
        lemma_first_index(key, ':', name.len() as int);
        assert(key.take(name.len() as int) =~= name);
        assert(key.subrange(name.len() as int + 2, key.len() - 1) =~= inner);
        assert(readable(Seq::empty(), pairs));
        lemma_labels_round_trip(pairs);
    }
}

/// The place of a key is within the pairs or just behind them; all pairs
/// before it have keys that stand before the key, and the pair at it has
/// not.
pub proof fn lemma_place_of(pairs: Seq<(Seq<char>, Seq<char>)>, key: Seq<char>)
    ensures
        0 <= place_of(pairs, key) <= pairs.len(),
        forall|i: int| 0 <= i < place_of(pairs, key) ==> text_before((#[trigger] pairs[i]).0, key),
        place_of(pairs, key) < pairs.len() ==> !text_before(pairs[place_of(pairs, key)].0, key),
    decreases pairs.len(),
{
    if pairs.len() == 0 || !text_before(pairs[0].0, key) {
    } else {
        let tail = pairs.drop_first();
        lemma_place_of(tail, key);
        assert forall|i: int| 0 <= i < place_of(pairs, key) implies text_before(
            (#[trigger] pairs[i]).0,
            key,
        ) by {
            if i > 0 {
                assert(tail[i - 1] == pairs[i]);
            }
        }
        if place_of(pairs, key) < pairs.len() {
            assert(tail[place_of(tail, key)] == pairs[place_of(pairs, key)]);
        }
    }
}

proof fn lemma_before_grows(a: Seq<char>, b: Seq<char>)
    requires
        a.len() > 0,
        b.len() > 0,
        a[0] == b[0],
        text_before(a.drop_first(), b.drop_first()),
    ensures
        text_before(a, b),
{
    let ta = a.drop_first();
    let tb = b.drop_first();
    let i = choose|i: int|
        0 <= i <= ta.len() && i <= tb.len() && #[trigger] ta.take(i) == tb.take(i) && (if i
            == ta.len() {
            i < tb.len()
        } else {
            i < tb.len() && ta[i] < tb[i]
        });
    assert(a.take(i + 1) =~= b.take(i + 1)) by {
        assert forall|k: int| 0 <= k < i + 1 implies a[k] == b[k] by {
            if k > 0 {
                assert(ta.take(i)[k - 1] == tb.take(i)[k - 1]);
            }
        }
    }
    if i < ta.len() {
        assert(a[i + 1] == ta[i]);
        assert(b[i + 1] == tb[i]);
    }
    assert(a.take(i + 1) == b.take(i + 1) && (if i + 1 == a.len() {
        i + 1 < b.len()
    } else {
        i + 1 < b.len() && a[i + 1] < b[i + 1]
    }));
}

/// Of two different texts one stands before the other.
pub proof fn lemma_before_total(a: Seq<char>, b: Seq<char>)
    requires
        a != b,
    ensures
        text_before(a, b) || text_before(b, a),
    decreases a.len(),
{
    if a.len() == 0 {
        if b.len() == 0 {
            assert(a =~= b);
        }
        assert(a.take(0) =~= b.take(0));
    } else if b.len() == 0 {
        assert(b.take(0) =~= a.take(0));
    } else if a[0] != b[0] {
        assert(a.take(0) =~= b.take(0));
        assert(b.take(0) =~= a.take(0));
        if a[0] < b[0] {
            assert(a.take(0) == b.take(0) && 0 < b.len() && a[0] < b[0]);
        } else {
            assert(b.take(0) == a.take(0) && 0 < a.len() && b[0] < a[0]);
        }
    } else {
        let ta = a.drop_first();
        let tb = b.drop_first();
        if ta == tb {
            assert(a =~= b) by {
                assert(ta.len() == a.len() - 1);
                assert(tb.len() == b.len() - 1);
                assert(a.len() == b.len());
                assert forall|k: int| 0 <= k < a.len() implies a[k] == b[k] by {
                    if k > 0 {
                        assert(ta[k - 1] == tb[k - 1]);
                    }
                }
            }
        }
        lemma_before_total(ta, tb);
        if text_before(ta, tb) {
            lemma_before_grows(a, b);
        } else {
            lemma_before_grows(b, a);
        }
    }
}

/// Binding a key keeps sorted pairs sorted.
pub proof fn lemma_with_pair_sorted(
    pairs: Seq<(Seq<char>, Seq<char>)>,
    key: Seq<char>,
    value: Seq<char>,
)
    requires
        sorted_pairs(pairs),
    ensures
        sorted_pairs(with_pair(pairs, key, value)),
{
    lemma_place_of(pairs, key);
    let at = place_of(pairs, key);
    let r = with_pair(pairs, key, value);
    if at < pairs.len() && pairs[at].0 == key {
        assert forall|i: int| 0 <= i < r.len() - 1 implies text_before(
            (#[trigger] r[i]).0,
            r[i + 1].0,
        ) by {
            assert(text_before(pairs[i].0, pairs[i + 1].0));
        }
    } else {
        assert(r == pairs.insert(at, (key, value)));
        assert forall|i: int| 0 <= i < r.len() - 1 implies text_before(
            (#[trigger] r[i]).0,
            r[i + 1].0,
        ) by {
            if i + 1 < at {
                assert(text_before(pairs[i].0, pairs[i + 1].0));
            } else if i + 1 == at {
                assert(text_before(pairs[i].0, key));
            } else if i == at {
                assert(r[i + 1] == pairs[i]);
                lemma_before_total(key, pairs[at].0);
            } else {
                assert(r[i] == pairs[i - 1]);
                assert(r[i + 1] == pairs[i]);
                assert(text_before(pairs[i - 1].0, pairs[i].0));
            }
        }
    }
}

/// What sorted pairs hold after a key is bound: the new pair, and the
/// pairs of other keys that they held before.
pub proof fn lemma_with_pair_holds(
    pairs: Seq<(Seq<char>, Seq<char>)>,
    key: Seq<char>,
    value: Seq<char>,
)
    requires
        sorted_pairs(pairs),
    ensures
        forall|x: (Seq<char>, Seq<char>)| #[trigger]
            with_pair(pairs, key, value).contains(x) <==> (x == (key, value) || (pairs.contains(x)
                && x.0 != key)),
{
    lemma_place_of(pairs, key);
    let at = place_of(pairs, key);
    let r = with_pair(pairs, key, value);
    assert forall|i: int| 0 <= i < pairs.len() && i != at implies (#[trigger] pairs[i]).0 != key by {
        if i < at {
            lemma_before_excludes(pairs[i].0, key);
        } else {
            lemma_sorted_apart(pairs, at, i);
            if pairs[i].0 == key {
                assert(text_before(pairs[at].0, key));
            }
        }
    }
    assert forall|x: (Seq<char>, Seq<char>)| #[trigger]
        r.contains(x) <==> (x == (key, value) || (pairs.contains(x) && x.0 != key)) by {
        if at < pairs.len() && pairs[at].0 == key {
            if r.contains(x) {
                let i = choose|i: int| 0 <= i < r.len() && r[i] == x;
                if i != at {
                    assert(pairs[i] == x);
                }
            }
            if x == (key, value) {
                assert(r[at] == x);
            }
            if pairs.contains(x) && x.0 != key {
                let i = choose|i: int| 0 <= i < pairs.len() && pairs[i] == x;
                assert(r[i] == x);
            }
        } else {
            assert(r == pairs.insert(at, (key, value)));
            if r.contains(x) {
                let i = choose|i: int| 0 <= i < r.len() && r[i] == x;
                if i < at {
                    assert(pairs[i] == x);
                } else if i > at {
                    assert(pairs[i - 1] == x);
                }
            }
            if x == (key, value) {
                assert(r[at] == x);
            }
            if pairs.contains(x) && x.0 != key {
                let i = choose|i: int| 0 <= i < pairs.len() && pairs[i] == x;
                if i < at {
                    assert(r[i] == x);
                } else {
                    assert(r[i + 1] == x);
                }
            }
        }
    }
}

/// Sorted pairs are known by what they hold: two lists of sorted pairs
/// that hold the same pairs are the same list.
pub proof fn lemma_sorted_same(a: Seq<(Seq<char>, Seq<char>)>, b: Seq<(Seq<char>, Seq<char>)>)
    requires
        sorted_pairs(a),
        sorted_pairs(b),
        forall|x: (Seq<char>, Seq<char>)| a.contains(x) <==> b.contains(x),
    ensures
        a == b,
    decreases a.len(),
{
    if a.len() == 0 {
        if b.len() > 0 {
            assert(b.contains(b[0]));
        }
        assert(a =~= b);
    } else {
        assert(a.contains(a[0]));
        let j = choose|j: int| 0 <= j < b.len() && b[j] == a[0];
        assert(b.contains(b[0]));
        let i = choose|i: int| 0 <= i < a.len() && a[i] == b[0];
        if j > 0 {
            lemma_sorted_apart(b, 0, j);
            if i > 0 {
                lemma_sorted_apart(a, 0, i);
                lemma_before_excludes(a[0].0, a[i].0);
            }
        }
        assert(a[0] == b[0]);
        let ta = a.drop_first();
        let tb = b.drop_first();
        assert forall|k: int| 0 <= k < ta.len() - 1 implies text_before(
            (#[trigger] ta[k]).0,
            ta[k + 1].0,
        ) by {
            assert(text_before(a[k + 1].0, a[k + 2].0));
        }
        assert forall|k: int| 0 <= k < tb.len() - 1 implies text_before(
            (#[trigger] tb[k]).0,
            tb[k + 1].0,
        ) by {
            assert(text_before(b[k + 1].0, b[k + 2].0));
        }
        assert forall|x: (Seq<char>, Seq<char>)| ta.contains(x) <==> tb.contains(x) by {
            if ta.contains(x) {
                let k = choose|k: int| 0 <= k < ta.len() && ta[k] == x;
                assert(a[k + 1] == x);
                assert(a.contains(x));
                lemma_sorted_apart(a, 0, k + 1);
                let m = choose|m: int| 0 <= m < b.len() && b[m] == x;
                assert(m > 0);
                assert(tb[m - 1] == x);
            }
            if tb.contains(x) {
                let k = choose|k: int| 0 <= k < tb.len() && tb[k] == x;
                assert(b[k + 1] == x);
                assert(b.contains(x));
                lemma_sorted_apart(b, 0, k + 1);
                let m = choose|m: int| 0 <= m < a.len() && a[m] == x;
                assert(m > 0);
                assert(ta[m - 1] == x);
            }
        }
        lemma_sorted_same(ta, tb);
        assert(a =~= b) by {
            assert(a.len() == b.len());
            assert forall|k: int| 0 <= k < a.len() implies a[k] == b[k] by {
                if k > 0 {
                    assert(ta[k - 1] == tb[k - 1]);
                }
            }
        }
    }
}

/// The labels of a metric do not depend on the order in which they are
/// given: binding two different keys one way round or the other gives the
/// same sorted pairs, and so the same key of the metric.
pub proof fn lemma_label_order(
    pairs: Seq<(Seq<char>, Seq<char>)>,
    first: (Seq<char>, Seq<char>),
    second: (Seq<char>, Seq<char>),
    name: Seq<char>,
)
    requires
        sorted_pairs(pairs),
        first.0 != second.0,
    ensures
        with_pair(with_pair(pairs, first.0, first.1), second.0, second.1) == with_pair(
            with_pair(pairs, second.0, second.1),
            first.0,
            first.1,
        ),
        key_text(name, with_pair(with_pair(pairs, first.0, first.1), second.0, second.1))
            == key_text(name, with_pair(with_pair(pairs, second.0, second.1), first.0, first.1)),
{
    let one = with_pair(pairs, first.0, first.1);
    let other = with_pair(pairs, second.0, second.1);
    let a = with_pair(one, second.0, second.1);
    let b = with_pair(other, first.0, first.1);
    lemma_with_pair_sorted(pairs, first.0, first.1);
    lemma_with_pair_sorted(pairs, second.0, second.1);
    lemma_with_pair_sorted(one, second.0, second.1);
    lemma_with_pair_sorted(other, first.0, first.1);
    lemma_with_pair_holds(pairs, first.0, first.1);
    lemma_with_pair_holds(pairs, second.0, second.1);
    lemma_with_pair_holds(one, second.0, second.1);
    lemma_with_pair_holds(other, first.0, first.1);
    assert forall|x: (Seq<char>, Seq<char>)| a.contains(x) <==> b.contains(x) by {
        assert(a.contains(x) <==> (x == second || (one.contains(x) && x.0 != second.0)));
        assert(one.contains(x) <==> (x == first || (pairs.contains(x) && x.0 != first.0)));
        assert(b.contains(x) <==> (x == first || (other.contains(x) && x.0 != first.0)));
        assert(other.contains(x) <==> (x == second || (pairs.contains(x) && x.0 != second.0)));
    }
    lemma_sorted_same(a, b);
}

} // verus!
