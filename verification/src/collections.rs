//! A small map keyed by text, kept in insertion order. It stands where a
//! hash map keyed by `String` would, with a view that contracts can speak
//! of.

use vstd::prelude::*;
use vstd::string::*;

verus! {

/// Whether no key occurs twice among the entries.
pub open spec fn unique_keys<V>(entries: Seq<(String, V)>) -> bool {
    forall|i: int, j: int|
        0 <= i < entries.len() && 0 <= j < entries.len() && i != j ==> (#[trigger] entries[i]).0@
            != (#[trigger] entries[j]).0@
}

/// Whether some entry has the key.
pub open spec fn holds_key<V>(entries: Seq<(String, V)>, key: Seq<char>) -> bool {
    exists|i: int| 0 <= i < entries.len() && (#[trigger] entries[i]).0@ == key
}

/// The place of an entry with the key.
pub open spec fn index_of_key<V>(entries: Seq<(String, V)>, key: Seq<char>) -> int {
    choose|i: int| 0 <= i < entries.len() && (#[trigger] entries[i]).0@ == key
}

/// The mapping from keys to values that the entries stand for.
pub open spec fn map_of<V>(entries: Seq<(String, V)>) -> Map<Seq<char>, V> {
    Map::new(
        |key: Seq<char>| holds_key(entries, key),
        |key: Seq<char>| entries[index_of_key(entries, key)].1,
    )
}

/// Where the keys are unique, an entry is what the mapping holds under its
/// key.
pub proof fn lemma_entry_in_map<V>(entries: Seq<(String, V)>, i: int)
    requires
        unique_keys(entries),
        0 <= i < entries.len(),
    ensures
        map_of(entries).dom().contains(entries[i].0@),
        map_of(entries)[entries[i].0@] == entries[i].1,
{
    let key = entries[i].0@;
    assert(holds_key(entries, key));
    let chosen = index_of_key(entries, key);
    assert(entries[chosen].0@ == key);
    assert(chosen == i);
}

/// Replacing the value of a held key changes the mapping at that key only.
pub proof fn lemma_update_entry<V>(before: Seq<(String, V)>, i: int, key: String, value: V)
    requires
        unique_keys(before),
        0 <= i < before.len(),
        before[i].0@ == key@,
    ensures
        unique_keys(before.update(i, (key, value))),
        map_of(before.update(i, (key, value))) == map_of(before).insert(key@, value),
{
    let after = before.update(i, (key, value));
    assert forall|a: int, b: int|
        0 <= a < after.len() && 0 <= b < after.len() && a != b implies (#[trigger] after[a]).0@ != (
    #[trigger] after[b]).0@ by {
        assert(after[a].0@ == before[a].0@);
        assert(after[b].0@ == before[b].0@);
    }
    let lhs = map_of(after);
    let rhs = map_of(before).insert(key@, value);
    assert forall|k: Seq<char>| lhs.dom().contains(k) <==> rhs.dom().contains(k) by {
        if holds_key(after, k) {
            let a = index_of_key(after, k);
            assert(before[a].0@ == after[a].0@);
        }
        if holds_key(before, k) {
            let b = index_of_key(before, k);
            assert(after[b].0@ == before[b].0@);
        }
        if k == key@ {
            assert(after[i].0@ == k);
        }
    }
    assert forall|k: Seq<char>| lhs.dom().contains(k) implies lhs[k] == rhs[k] by {
        let a = index_of_key(after, k);
        assert(after[a].0@ == k);
        assert(before[a].0@ == k);
        if k == key@ {
            assert(a == i);
        } else {
            let b = index_of_key(before, k);
            assert(before[b].0@ == k);
            assert(a == b);
        }
    }
    assert(lhs =~= rhs);
}

/// Adding an entry under a key that is not held binds that key and leaves
/// the rest alone.
pub proof fn lemma_push_entry<V>(before: Seq<(String, V)>, key: String, value: V)
    requires
        unique_keys(before),
        !holds_key(before, key@),
    ensures
        unique_keys(before.push((key, value))),
        map_of(before.push((key, value))) == map_of(before).insert(key@, value),
{
    let after = before.push((key, value));
    assert forall|a: int, b: int|
        0 <= a < after.len() && 0 <= b < after.len() && a != b implies (#[trigger] after[a]).0@ != (
    #[trigger] after[b]).0@ by {
        if a < before.len() {
            assert(after[a] == before[a]);
        }
        if b < before.len() {
            assert(after[b] == before[b]);
        }
    }
    let lhs = map_of(after);
    let rhs = map_of(before).insert(key@, value);
    assert forall|k: Seq<char>| lhs.dom().contains(k) <==> rhs.dom().contains(k) by {
        if holds_key(after, k) {
            let a = index_of_key(after, k);
            if a < before.len() {
                assert(before[a].0@ == k);
            }
        }
        if holds_key(before, k) {
            let b = index_of_key(before, k);
            assert(after[b].0@ == k);
        }
        if k == key@ {
            assert(after[before.len() as int].0@ == k);
        }
    }
    assert forall|k: Seq<char>| lhs.dom().contains(k) implies lhs[k] == rhs[k] by {
        let a = index_of_key(after, k);
        assert(after[a].0@ == k);
        if k == key@ {
            assert(after[before.len() as int].0@ == k);
            assert(a == before.len());
        } else {
            assert(a < before.len());
            assert(before[a] == after[a]);
            let b = index_of_key(before, k);
            assert(before[b].0@ == k);
            assert(after[b] == before[b]);
            assert(a == b);
        }
    }
    assert(lhs =~= rhs);
}

/// A map from text to values. No key is held twice; entries keep the
/// order in which their keys were first bound.
pub struct StringMap<V> {
    entries: Vec<(String, V)>,
}

impl<V> View for StringMap<V> {
    type V = Map<Seq<char>, V>;

    closed spec fn view(&self) -> Map<Seq<char>, V> {
        map_of(self.entries@)
    }
}

impl<V> StringMap<V> {
    #[verifier::type_invariant]
    closed spec fn well_formed(&self) -> bool {
        unique_keys(self.entries@)
    }

    /// The entries behind the mapping, in the order they are held.
    pub closed spec fn spec_entries(&self) -> Seq<(String, V)> {
        self.entries@
    }

    /// The empty map.
    pub fn new() -> (r: Self)
        ensures
            r@ == Map::<Seq<char>, V>::empty(),
            r@.dom() == Set::<Seq<char>>::empty(),
            r.spec_entries().len() == 0,
    {
        let r = StringMap { entries: Vec::new() };
        assert(r@ =~= Map::<Seq<char>, V>::empty());
        r
    }

    /// The number of keys.
    pub fn len(&self) -> (n: usize)
        ensures
            n == self.spec_entries().len(),
    {
        self.entries.len()
    }

    /// The place of the key among the entries, if it is bound.
    pub fn position(&self, key: &str) -> (r: Option<usize>)
        ensures
            r is None <==> !self@.dom().contains(key@),
            r matches Some(i) ==> i < self.spec_entries().len() && self.spec_entries()[i as int].0@
                == key@ && self@[key@] == self.spec_entries()[i as int].1,
    {
        proof {
            use_type_invariant(self);
        }
        let mut i: usize = 0;
        while i < self.entries.len()
            invariant
                i <= self.entries@.len(),
                unique_keys(self.entries@),
                forall|k: int| 0 <= k < i ==> (#[trigger] self.entries@[k]).0@ != key@,
            decreases self.entries@.len() - i,
        {
            if crate::text::str_eq(self.entries[i].0.as_str(), key) {
                proof {
                    lemma_entry_in_map(self.entries@, i as int);
                }
                return Some(i);
            }
            i = i + 1;
        }
        None
    }

    /// Whether the key is bound.
    pub fn contains_key(&self, key: &str) -> (r: bool)
        ensures
            r == self@.dom().contains(key@),
    {
        self.position(key).is_some()
    }

    /// The value bound to the key, if any.
    pub fn get(&self, key: &str) -> (r: Option<&V>)
        ensures
            r is Some <==> self@.dom().contains(key@),
            r matches Some(v) ==> *v == self@[key@],
    {
        match self.position(key) {
            Some(i) => Some(&self.entries[i].1),
            None => None,
        }
    }

    /// Binds the key to the value, replacing what was bound before. A key
    /// that was bound keeps its place; a new key goes to the end.
    pub fn insert(&mut self, key: String, value: V)
        ensures
            final(self)@ == old(self)@.insert(key@, value),
            final(self)@.dom() == old(self)@.dom().insert(key@),
            final(self)@[key@] == value,
            forall|other: Seq<char>|
                other != key@ && old(self)@.dom().contains(other) ==> #[trigger] final(self)@[other]
                    == old(self)@[other],
            old(self)@.dom().contains(key@) ==> final(self).spec_entries().len() == old(
                self,
            ).spec_entries().len(),
            !old(self)@.dom().contains(key@) ==> final(self).spec_entries() == old(
                self,
            ).spec_entries().push((key, value)),
    {
        proof {
            use_type_invariant(&*self);
        }
        let ghost before = self.entries@;
        let found = self.position(key.as_str());
        let mut entries: Vec<(String, V)> = Vec::new();
        std::mem::swap(&mut self.entries, &mut entries);
        match found {
            Some(i) => {
                entries.set(i, (key, value));
                proof {
                    lemma_update_entry(before, i as int, key, value);
                }
            },
            None => {
                entries.push((key, value));
                proof {
                    lemma_push_entry(before, key, value);
                }
            },
        }
        std::mem::swap(&mut self.entries, &mut entries);
    }

    /// The entries as pairs of key and value, no key twice.
    pub fn entries(&self) -> (r: &Vec<(String, V)>)
        ensures
            r@ == self.spec_entries(),
            unique_keys(r@),
            map_of(r@) == self@,
    {
        proof {
            use_type_invariant(self);
        }
        &self.entries
    }
}

} // verus!
