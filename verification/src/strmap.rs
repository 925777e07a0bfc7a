//! A map keyed by strings that keeps its entries in insertion order.
//!
//! Signal names, template names, node identifiers and the like key the
//! library's tables. `StrMap` holds each key at most once; inserting a
//! present key replaces its value in place, as a hash map's `insert` does.
use vstd::prelude::*;

verus! {

/// Whether some entry has key `k`.
pub open spec fn has_key<V>(s: Seq<(Seq<char>, V)>, k: Seq<char>) -> bool {
    exists|i: int| 0 <= i < s.len() && (#[trigger] s[i]).0 == k
}

/// The position of the entry with key `k` (meaningful when `has_key`).
pub open spec fn key_index<V>(s: Seq<(Seq<char>, V)>, k: Seq<char>) -> int {
    choose|i: int| 0 <= i < s.len() && (#[trigger] s[i]).0 == k
}

/// The value stored under key `k` (meaningful when `has_key`).
pub open spec fn value_for<V>(s: Seq<(Seq<char>, V)>, k: Seq<char>) -> V {
    s[key_index(s, k)].1
}

/// No two entries share a key.
pub open spec fn distinct_keys<V>(s: Seq<(Seq<char>, V)>) -> bool {
    forall|i: int, j: int|
        0 <= i < s.len() && 0 <= j < s.len() && i != j ==> (#[trigger] s[i]).0 != (#[trigger] s[j]).0
}

/// The entries after storing `v` under `k`: a present key keeps its place
/// and gets the new value, a new key goes at the end.
pub open spec fn insert_entry<V>(s: Seq<(Seq<char>, V)>, k: Seq<char>, v: V) -> Seq<(Seq<char>, V)> {
    if has_key(s, k) {
        s.update(key_index(s, k), (k, v))
    } else {
        s.push((k, v))
    }
}

/// The entries after removing key `k`.
pub open spec fn remove_entry<V>(s: Seq<(Seq<char>, V)>, k: Seq<char>) -> Seq<(Seq<char>, V)> {
    if has_key(s, k) {
        s.remove(key_index(s, k))
    } else {
        s
    }
}

/// The keys of the entries, in order.
pub open spec fn keys_of<V>(s: Seq<(Seq<char>, V)>) -> Seq<Seq<char>> {
    s.map_values(|e: (Seq<char>, V)| e.0)
}

/// With distinct keys, the entry that holds a key is the one `key_index` names.
pub proof fn lemma_key_index_unique<V>(s: Seq<(Seq<char>, V)>, i: int)
    requires
        distinct_keys(s),
        0 <= i < s.len(),
    ensures
        has_key(s, s[i].0),
        key_index(s, s[i].0) == i,
{
    assert(has_key(s, s[i].0));
    let j = key_index(s, s[i].0);
    if j != i {
        assert(s[j].0 == s[i].0);
    }
}

/// Storing under a key keeps the keys distinct, and the key is then present
/// with the stored value.
pub proof fn lemma_insert_entry<V>(s: Seq<(Seq<char>, V)>, k: Seq<char>, v: V)
    requires
        distinct_keys(s),
    ensures
        distinct_keys(insert_entry(s, k, v)),
        has_key(insert_entry(s, k, v), k),
        value_for(insert_entry(s, k, v), k) == v,
        forall|k2: Seq<char>|
            k2 != k ==> (has_key(insert_entry(s, k, v), k2) == has_key(s, k2)),
        forall|k2: Seq<char>|
            k2 != k && has_key(s, k2) ==> value_for(insert_entry(s, k, v), k2) == value_for(s, k2),
        insert_entry(s, k, v).len() == if has_key(s, k) { s.len() } else { s.len() + 1 },
{
    let t = insert_entry(s, k, v);
    if has_key(s, k) {
        let idx = key_index(s, k);
        assert(t[idx].0 == k);
        lemma_key_index_unique(t, idx);
        assert forall|k2: Seq<char>| k2 != k implies (has_key(t, k2) == has_key(s, k2)) by {
            if has_key(s, k2) {
                let j = key_index(s, k2);
                assert(t[j].0 == k2);
            }
            if has_key(t, k2) {
                let j = key_index(t, k2);
                assert(s[j].0 == k2);
            }
        }
        assert forall|k2: Seq<char>|
            k2 != k && has_key(s, k2) implies value_for(t, k2) == value_for(s, k2) by {
            let j = key_index(s, k2);
            assert(t[j].0 == k2);
            lemma_key_index_unique(t, j);
        }
    } else {
        let idx = s.len() as int;
        assert(t[idx].0 == k);
        lemma_key_index_unique(t, idx);
        assert forall|k2: Seq<char>| k2 != k implies (has_key(t, k2) == has_key(s, k2)) by {
            if has_key(s, k2) {
                let j = key_index(s, k2);
                assert(t[j].0 == k2);
            }
            if has_key(t, k2) {
                let j = key_index(t, k2);
                assert(s[j].0 == k2);
            }
        }
        assert forall|k2: Seq<char>|
            k2 != k && has_key(s, k2) implies value_for(t, k2) == value_for(s, k2) by {
            let j = key_index(s, k2);
            assert(t[j].0 == k2);
            lemma_key_index_unique(t, j);
        }
    }
}

/// String slice equality (`<str as PartialEq>::eq`): whether the two slices
/// hold the same characters.
#[verifier::external_body]
pub(crate) fn str_eq(a: &str, b: &str) -> (r: bool)
    ensures
        r == (a@ == b@),
{
    a == b
}

/// A table of values keyed by strings, each key at most once, in insertion order.
#[derive(Debug)]
pub struct StrMap<V> {
    entries: Vec<(String, V)>,
}

impl<V> StrMap<V> {
    #[verifier::type_invariant]
    spec fn keys_distinct(self) -> bool {
        distinct_keys(self.entries@.map_values(|e: (String, V)| (e.0@, e.1)))
    }

    /// The entries, as (key characters, value) pairs in order.
    pub closed spec fn entries(self) -> Seq<(Seq<char>, V)> {
        self.entries@.map_values(|e: (String, V)| (e.0@, e.1))
    }

    /// An empty table.
    pub fn new() -> (m: StrMap<V>)
        ensures
            m@ == Seq::<(Seq<char>, V)>::empty(),
            distinct_keys(m@),
    {
        let m = StrMap { entries: Vec::new() };
        assert(m@ =~= Seq::<(Seq<char>, V)>::empty());
        m
    }

    /// The number of entries.
    pub fn len(&self) -> (n: usize)
        ensures
            n == self@.len(),
            distinct_keys(self@),
    {
        proof {
            use_type_invariant(self);
        }
        self.entries.len()
    }

    /// Whether the table is empty.
    pub fn is_empty(&self) -> (b: bool)
        ensures
            b == (self@.len() == 0),
    {
        self.entries.len() == 0
    }

    /// The position of the entry with the given key.
    pub fn find(&self, key: &str) -> (r: Option<usize>)
        ensures
            distinct_keys(self@),
            r is None ==> !has_key(self@, key@),
            r matches Some(i) ==> i < self@.len() && self@[i as int].0 == key@ && key_index(
                self@,
                key@,
            ) == i,
    {
        proof {
            use_type_invariant(self);
        }
        let mut i: usize = 0;
        while i < self.entries.len()
            invariant
                i <= self.entries.len(),
                distinct_keys(self@),
                forall|j: int| 0 <= j < i ==> (#[trigger] self@[j]).0 != key@,
            decreases self.entries.len() - i,
        {
            if str_eq(self.entries[i].0.as_str(), key) {
                proof {
                    lemma_key_index_unique(self@, i as int);
                }
                return Some(i);
            }
            i += 1;
        }
        None
    }

    /// Whether some entry has the given key.
    pub fn contains_key(&self, key: &str) -> (b: bool)
        ensures
            b == has_key(self@, key@),
    {
        self.find(key).is_some()
    }

    /// The value stored under the given key.
    pub fn get(&self, key: &str) -> (r: Option<&V>)
        ensures
            r is Some == has_key(self@, key@),
            r matches Some(v) ==> *v == value_for(self@, key@),
    {
        match self.find(key) {
            Some(i) => Some(&self.entries[i].1),
            None => None,
        }
    }

    /// The key of the entry at a position.
    pub fn key_at(&self, i: usize) -> (k: &String)
        requires
            i < self@.len(),
        ensures
            k@ == self@[i as int].0,
    {
        &self.entries[i].0
    }

    /// The value of the entry at a position.
    pub fn value_at(&self, i: usize) -> (v: &V)
        requires
            i < self@.len(),
        ensures
            *v == self@[i as int].1,
    {
        &self.entries[i].1
    }

    /// Stores a value under a key: a present key keeps its position and gets
    /// the new value (the old one is returned), a new key is added at the end.
    pub fn insert(&mut self, key: String, value: V) -> (old_value: Option<V>)
        ensures
            final(self)@ == insert_entry(old(self)@, key@, value),
            distinct_keys(final(self)@),
            old_value is Some == has_key(old(self)@, key@),
            old_value matches Some(v) ==> v == value_for(old(self)@, key@),
    {
        proof {
            use_type_invariant(&*self);
            lemma_insert_entry(self@, key@, value);
        }
        match self.find(key.as_str()) {
            Some(i) => {
                let mut tmp: Vec<(String, V)> = Vec::new();
                std::mem::swap(&mut tmp, &mut self.entries);
                let ghost before = tmp@;
                let (k, old_v) = tmp.remove(i);
                tmp.insert(i, (key, value));
                proof {
                    assert(tmp@.map_values(|e: (String, V)| (e.0@, e.1)) =~= insert_entry(
                        old(self)@,
                        k@,
                        value,
                    ));
                }
                self.entries = tmp;
                Some(old_v)
            },
            None => {
                let mut tmp: Vec<(String, V)> = Vec::new();
                std::mem::swap(&mut tmp, &mut self.entries);
                tmp.push((key, value));
                proof {
                    assert(tmp@.map_values(|e: (String, V)| (e.0@, e.1)) =~= insert_entry(
                        old(self)@,
                        key@,
                        value,
                    ));
                }
                self.entries = tmp;
                None
            },
        }
    }

    /// Removes the entry with the given key and returns its value.
    pub fn remove(&mut self, key: &str) -> (r: Option<V>)
        ensures
            final(self)@ == remove_entry(old(self)@, key@),
            distinct_keys(final(self)@),
            r is Some == has_key(old(self)@, key@),
            r matches Some(v) ==> v == value_for(old(self)@, key@),
    {
        proof {
            use_type_invariant(&*self);
        }
        match self.find(key) {
            Some(i) => {
                let mut tmp: Vec<(String, V)> = Vec::new();
                std::mem::swap(&mut tmp, &mut self.entries);
                let (_k, v) = tmp.remove(i);
                proof {
                    assert(tmp@.map_values(|e: (String, V)| (e.0@, e.1)) =~= remove_entry(
                        old(self)@,
                        key@,
                    ));
                    let t = tmp@.map_values(|e: (String, V)| (e.0@, e.1));
                    assert forall|a: int, b: int|
                        0 <= a < t.len() && 0 <= b < t.len() && a != b implies (#[trigger] t[a]).0
                        != (#[trigger] t[b]).0 by {
                        let a2 = if a < i { a } else { a + 1 };
                        let b2 = if b < i { b } else { b + 1 };
                        assert(t[a] == old(self)@[a2]);
                        assert(t[b] == old(self)@[b2]);
                    }
                }
                self.entries = tmp;
                Some(v)
            },
            None => None,
        }
    }

    /// Removes every entry.
    pub fn clear(&mut self)
        ensures
            final(self)@ == Seq::<(Seq<char>, V)>::empty(),
    {
        self.entries = Vec::new();
        assert(self@ =~= Seq::<(Seq<char>, V)>::empty());
    }

    /// Puts `value` in the entry at position `i`, key kept; returns the value it held.
    pub fn replace_value_at(&mut self, i: usize, value: V) -> (old_value: V)
        requires
            i < old(self)@.len(),
        ensures
            final(self)@ == old(self)@.update(i as int, (old(self)@[i as int].0, value)),
            old_value == old(self)@[i as int].1,
            distinct_keys(final(self)@),
    {
        proof {
            use_type_invariant(&*self);
        }
        let ghost before = self@;
        let mut tmp: Vec<(String, V)> = Vec::new();
        std::mem::swap(&mut tmp, &mut self.entries);
        let (k, old_v) = tmp.remove(i);
        tmp.insert(i, (k, value));
        proof {
            let after = before.update(i as int, (before[i as int].0, value));
            assert(tmp@.map_values(|e: (String, V)| (e.0@, e.1)) =~= after);
            assert forall|a: int, b: int|
                0 <= a < after.len() && 0 <= b < after.len() && a != b implies (#[trigger] after[a]).0
                != (#[trigger] after[b]).0 by {
                assert(after[a].0 == before[a].0);
                assert(after[b].0 == before[b].0);
            }
        }
        self.entries = tmp;
        old_v
    }

    /// Copies of the keys, in order.
    pub fn keys(&self) -> (ks: Vec<String>)
        ensures
            ks@.len() == self@.len(),
            forall|i: int| 0 <= i < ks@.len() ==> (#[trigger] ks@[i])@ == self@[i].0,
    {
        let mut ks: Vec<String> = Vec::new();
        let mut i: usize = 0;
        while i < self.entries.len()
            invariant
                i <= self.entries.len(),
                ks@.len() == i,
                forall|j: int| 0 <= j < i ==> (#[trigger] ks@[j])@ == self@[j].0,
            decreases self.entries.len() - i,
        {
            ks.push(self.entries[i].0.clone());
            i += 1;
        }
        ks
    }
}

impl<V> View for StrMap<V> {
    type V = Seq<(Seq<char>, V)>;

    open spec fn view(&self) -> Seq<(Seq<char>, V)> {
        self.entries()
    }
}

impl<V: Clone> Clone for StrMap<V> {
    fn clone(&self) -> (r: StrMap<V>)
        ensures
            r@.len() == self@.len(),
            forall|i: int|
                0 <= i < r@.len() ==> (#[trigger] r@[i]).0 == self@[i].0 && cloned(self@[i].1, r@[i].1),
    {
        proof {
            use_type_invariant(self);
        }
        let mut out: Vec<(String, V)> = Vec::new();
        let mut i: usize = 0;
        while i < self.entries.len()
            invariant
                i <= self.entries.len(),
                out@.len() == i,
                forall|j: int|
                    0 <= j < i ==> (#[trigger] out@[j]).0@ == self@[j].0 && cloned(self@[j].1, out@[j].1),
            decreases self.entries.len() - i,
        {
            out.push((self.entries[i].0.clone(), self.entries[i].1.clone()));
            i += 1;
        }
        let r = StrMap { entries: out };
        proof {
            assert forall|a: int, b: int|
                0 <= a < r@.len() && 0 <= b < r@.len() && a != b implies (#[trigger] r@[a]).0 != (
            #[trigger] r@[b]).0 by {
                assert(r@[a].0 == self@[a].0);
                assert(r@[b].0 == self@[b].0);
            }
        }
        r
    }
}

} // verus!
