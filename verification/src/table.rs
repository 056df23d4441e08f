//! A small table keyed by text, kept in insertion order.
//!
//! No key occurs twice. The table stands where a hash map keyed by strings
//! would: what it holds is a map from texts to values.

use crate::text::str_eq;
use vstd::prelude::*;

verus! {

/// A table from names to values.
pub struct NameTable<V> {
    entries: Vec<(String, V)>,
}

/// Whether no key occurs twice among `entries`.
pub open spec fn distinct_keys<V>(entries: Seq<(String, V)>) -> bool {
    forall|i: int, j: int|
        0 <= i < j < entries.len() ==> (#[trigger] entries[i]).0@ != (#[trigger] entries[j]).0@
}

/// Whether `key` is the key of some entry.
pub open spec fn has_key<V>(entries: Seq<(String, V)>, key: Seq<char>) -> bool {
    exists|i: int| 0 <= i < entries.len() && (#[trigger] entries[i]).0@ == key
}

/// The position of an entry with key `key`.
pub open spec fn position_of<V>(entries: Seq<(String, V)>, key: Seq<char>) -> int {
    choose|i: int| 0 <= i < entries.len() && (#[trigger] entries[i]).0@ == key
}

/// The map that a list of entries with distinct keys stands for.
pub open spec fn map_of<V>(entries: Seq<(String, V)>) -> Map<Seq<char>, V> {
    Map::new(
        |key: Seq<char>| has_key(entries, key),
        |key: Seq<char>| entries[position_of(entries, key)].1,
    )
}

/// Each entry of a list with distinct keys is found under its key.
pub proof fn lemma_entry_is_mapped<V>(entries: Seq<(String, V)>, i: int)
    requires
        distinct_keys(entries),
        0 <= i < entries.len(),
    ensures
        map_of(entries).contains_key(entries[i].0@),
        map_of(entries)[entries[i].0@] == entries[i].1,
        position_of(entries, entries[i].0@) == i,
{
    let key = entries[i].0@;
    let p = position_of(entries, key);
    assert(has_key(entries, key));
    if p < i {
        assert(entries[p].0@ != entries[i].0@);
    } else if i < p {
        assert(entries[i].0@ != entries[p].0@);
    }
}

impl<V> View for NameTable<V> {
    type V = Map<Seq<char>, V>;

    closed spec fn view(&self) -> Map<Seq<char>, V> {
        map_of(self.entries@)
    }
}

impl<V> NameTable<V> {
    /// Whether the table is well formed: no key occurs twice. Every table
    /// made by `new` and changed by the methods of this type is.
    pub closed spec fn wf(&self) -> bool {
        distinct_keys(self.entries@)
    }

    /// An empty table.
    pub fn new() -> (r: NameTable<V>)
        ensures
            r.wf(),
            r@ == Map::<Seq<char>, V>::empty(),
    {
        let r = NameTable { entries: Vec::new() };
        assert(r@ =~= Map::<Seq<char>, V>::empty());
        r
    }

    /// Whether the table holds no key.
    pub fn is_empty(&self) -> (r: bool)
        requires
            self.wf(),
        ensures
            r == (self@ == Map::<Seq<char>, V>::empty()),
    {
        let r = self.entries.len() == 0;
        proof {
            if r {
                assert(self@ =~= Map::<Seq<char>, V>::empty());
            } else {
                lemma_entry_is_mapped(self.entries@, 0);
            }
        }
        r
    }

    /// The position of `key` among the entries, if it is a key.
    fn find(&self, key: &str) -> (r: Option<usize>)
        ensures
            match r {
                Some(i) => i < self.entries@.len() && self.entries@[i as int].0@ == key@,
                None => !has_key(self.entries@, key@),
            },
    {
        let mut i: usize = 0;
        while i < self.entries.len()
            invariant
                i <= self.entries@.len(),
                forall|j: int| 0 <= j < i ==> (#[trigger] self.entries@[j]).0@ != key@,
            decreases self.entries@.len() - i,
        {
            if str_eq(self.entries[i].0.as_str(), key) {
                return Some(i);
            }
            i += 1;
        }
        None
    }

    /// Whether `key` is a key of the table.
    pub fn contains_key(&self, key: &str) -> (r: bool)
        ensures
            r == self@.contains_key(key@),
    {
        self.find(key).is_some()
    }

    /// The value stored under `key`, if any.
    pub fn get(&self, key: &str) -> (r: Option<&V>)
        requires
            self.wf(),
        ensures
            match r {
                Some(v) => self@.contains_key(key@) && *v == self@[key@],
                None => !self@.contains_key(key@),
            },
    {
        match self.find(key) {
            Some(i) => {
                proof {
                    lemma_entry_is_mapped(self.entries@, i as int);
                }
                Some(&self.entries[i].1)
            },
            None => None,
        }
    }

    /// Stores `value` under `key`, in place of what was stored there.
    pub fn insert(&mut self, key: String, value: V)
        requires
            old(self).wf(),
        ensures
            final(self).wf(),
            final(self)@ == old(self)@.insert(key@, value),
    {
        let ghost before = self.entries@;
        match self.find(key.as_str()) {
            Some(i) => {
                self.entries[i] = (key, value);
                proof {
                    let after = self.entries@;
                    assert(distinct_keys(after)) by {
                        assert forall|a: int, b: int| 0 <= a < b < after.len() implies (
                        #[trigger] after[a]).0@ != (#[trigger] after[b]).0@ by {
                            assert(before[a].0@ != before[b].0@);
                        }
                    }
                    assert forall|k: Seq<char>| has_key(after, k) == has_key(before, k) by {
                        if has_key(before, k) {
                            let p = position_of(before, k);
                            assert(after[p].0@ == k);
                        }
                        if has_key(after, k) {
                            let p = position_of(after, k);
                            assert(before[p].0@ == k);
                        }
                    }
                    assert forall|k: Seq<char>| has_key(after, k) implies map_of(after)[k]
                        == map_of(before).insert(key@, value)[k] by {
                        let p = position_of(after, k);
                        lemma_entry_is_mapped(after, p);
                        lemma_entry_is_mapped(before, p);
                    }
                    assert(has_key(before, key@)) by {
                        assert(before[i as int].0@ == key@);
                    }
                    assert(map_of(after) =~= map_of(before).insert(key@, value));
                }
            },
            None => {
                self.entries.push((key, value));
                proof {
                    let after = self.entries@;
                    let n = before.len() as int;
                    assert(distinct_keys(after)) by {
                        assert forall|a: int, b: int| 0 <= a < b < after.len() implies (
                        #[trigger] after[a]).0@ != (#[trigger] after[b]).0@ by {
                            if b < n {
                                assert(before[a].0@ != before[b].0@);
                            } else {
                                assert(before[a].0@ != key@);
                            }
                        }
                    }
                    assert forall|k: Seq<char>| has_key(after, k) == (has_key(before, k) || k
                        == key@) by {
                        if has_key(before, k) {
                            let p = position_of(before, k);
                            assert(after[p].0@ == k);
                        }
                        if k == key@ {
                            assert(after[n].0@ == k);
                        }
                        if has_key(after, k) {
                            let p = position_of(after, k);
                            if p < n {
                                assert(before[p].0@ == k);
                            }
                        }
                    }
                    assert forall|k: Seq<char>| has_key(after, k) implies map_of(after)[k]
                        == map_of(before).insert(key@, value)[k] by {
                        let p = position_of(after, k);
                        lemma_entry_is_mapped(after, p);
                        if p < n {
                            assert(before[p].0@ == k);
                            lemma_entry_is_mapped(before, p);
                        }
                    }
                    assert(map_of(after) =~= map_of(before).insert(key@, value));
                }
            },
        }
    }

    /// Takes out what is stored under `key`, if anything is.
    pub fn remove(&mut self, key: &str) -> (r: Option<V>)
        requires
            old(self).wf(),
        ensures
            final(self).wf(),
            final(self)@ == old(self)@.remove(key@),
            match r {
                Some(v) => old(self)@.contains_key(key@) && v == old(self)@[key@],
                None => !old(self)@.contains_key(key@),
            },
    {
        let ghost before = self.entries@;
        match self.find(key) {
            None => {
                assert(self@ =~= old(self)@.remove(key@));
                None
            },
            Some(i) => {
                proof {
                    lemma_entry_is_mapped(before, i as int);
                }
                let entry = self.entries.remove(i);
                proof {
                    let after = self.entries@;
                    assert(distinct_keys(after)) by {
                        assert forall|a: int, b: int| 0 <= a < b < after.len() implies (
                        #[trigger] after[a]).0@ != (#[trigger] after[b]).0@ by {
                            let a0 = if a < i { a } else { a + 1 };
                            let b0 = if b < i { b } else { b + 1 };
                            assert(before[a0].0@ != before[b0].0@);
                        }
                    }
                    assert forall|k: Seq<char>| has_key(after, k) == (has_key(before, k) && k
                        != key@) by {
                        if has_key(before, k) && k != key@ {
                            let p = position_of(before, k);
                            let q = if p < i { p } else { p - 1 };
                            assert(after[q].0@ == k);
                        }
                        if has_key(after, k) {
                            let q = position_of(after, k);
                            let p = if q < i { q } else { q + 1 };
                            assert(before[p].0@ == k);
                            if p < i {
                                assert(before[p].0@ != before[i as int].0@);
                            } else {
                                assert(before[i as int].0@ != before[p].0@);
                            }
                        }
                    }
                    assert forall|k: Seq<char>| has_key(after, k) implies map_of(after)[k]
                        == map_of(before)[k] by {
                        let q = position_of(after, k);
                        let p = if q < i { q } else { q + 1 };
                        lemma_entry_is_mapped(after, q);
                        assert(before[p] == after[q]);
                        lemma_entry_is_mapped(before, p);
                    }
                    assert(map_of(after) =~= map_of(before).remove(key@));
                }
                Some(entry.1)
            },
        }
    }

    /// The keys of the table, each once.
    pub fn keys(&self) -> (r: Vec<String>)
        requires
            self.wf(),
        ensures
            forall|i: int, j: int| 0 <= i < j < r@.len() ==> r@[i]@ != r@[j]@,
            forall|i: int| 0 <= i < r@.len() ==> self@.contains_key(#[trigger] r@[i]@),
            forall|k: Seq<char>|
                self@.contains_key(k) ==> exists|i: int| 0 <= i < r@.len() && #[trigger] r@[i]@ == k,
    {
        let mut out: Vec<String> = Vec::new();
        let mut i: usize = 0;
        while i < self.entries.len()
            invariant
                i <= self.entries@.len(),
                out@.len() == i,
                forall|j: int| 0 <= j < i ==> (#[trigger] out@[j])@ == self.entries@[j].0@,
            decreases self.entries@.len() - i,
        {
            out.push(self.entries[i].0.clone());
            i += 1;
        }
        proof {
            let entries = self.entries@;
            assert forall|a: int, b: int| 0 <= a < b < out@.len() implies out@[a]@ != out@[b]@ by {
                assert(entries[a].0@ != entries[b].0@);
            }
            assert forall|a: int| 0 <= a < out@.len() implies self@.contains_key(
                #[trigger] out@[a]@,
            ) by {
                lemma_entry_is_mapped(entries, a);
            }
            assert forall|k: Seq<char>| self@.contains_key(k) implies exists|a: int|
                0 <= a < out@.len() && #[trigger] out@[a]@ == k by {
                let p = position_of(entries, k);
                assert(out@[p]@ == k);
            }
        }
        out
    }
}

} // verus!
