//! Keyed tables kept as lists: an entry is found by the first key that
//! matches, and new entries go to the end, so that the order of a table is
//! the order in which its keys were first seen.

use crate::text::text_eq;
use vstd::prelude::*;

verus! {

/// The index of the first occurrence of `key`.
pub open spec fn index_of<K>(keys: Seq<K>, key: K) -> Option<int>
    decreases keys.len(),
{
    if keys.len() == 0 {
        None
    } else {
        match index_of(keys.drop_last(), key) {
            Some(i) => Some(i),
            None => if keys.last() == key {
                Some(keys.len() - 1)
            } else {
                None
            },
        }
    }
}

/// No key occurs twice.
pub open spec fn distinct<K>(keys: Seq<K>) -> bool {
    forall|i: int, j: int| 0 <= i < j < keys.len() ==> keys[i] != keys[j]
}

/// What the index of a key tells: the key stands there and nowhere before;
/// without an index it stands nowhere.
pub proof fn lemma_index_of<K>(keys: Seq<K>, key: K)
    ensures
        match index_of(keys, key) {
            Some(i) => 0 <= i < keys.len() && keys[i] == key && forall|j: int|
                0 <= j < i ==> keys[j] != key,
            None => forall|j: int| 0 <= j < keys.len() ==> keys[j] != key,
        },
    decreases keys.len(),
{
    if keys.len() > 0 {
        let front = keys.drop_last();
        lemma_index_of(front, key);
        match index_of(front, key) {
            Some(i) => {
                assert(keys[i] == front[i]);
                assert forall|j: int| 0 <= j < i implies keys[j] != key by {
                    assert(keys[j] == front[j]);
                }
            },
            None => {
                assert forall|j: int| 0 <= j < keys.len() - 1 implies keys[j] != key by {
                    assert(keys[j] == front[j]);
                }
            },
        }
    }
}

/// A key found in a prefix is found at the same place in the whole.
pub proof fn lemma_index_of_prefix<K>(keys: Seq<K>, n: int, key: K)
    requires
        0 <= n <= keys.len(),
        index_of(keys.take(n), key) is Some,
    ensures
        index_of(keys, key) == index_of(keys.take(n), key),
    decreases keys.len() - n,
{
    if n < keys.len() {
        assert(keys.take(n + 1).drop_last() =~= keys.take(n));
        lemma_index_of_prefix(keys, n + 1, key);
    } else {
        assert(keys.take(n) =~= keys);
    }
}

/// A table that is extended by a key it did not hold stays free of duplicates.
pub proof fn lemma_distinct_push<K>(keys: Seq<K>, key: K)
    requires
        distinct(keys),
        index_of(keys, key) is None,
    ensures
        distinct(keys.push(key)),
{
    lemma_index_of(keys, key);
}

/// The keys of a table after a step under `key`: as they were where the
/// key was held, else with the key at the end.
pub open spec fn keys_after<K>(keys: Seq<K>, key: K) -> Seq<K> {
    match index_of(keys, key) {
        Some(_i) => keys,
        None => keys.push(key),
    }
}

/// A table that holds no key twice stays so with every step.
pub proof fn lemma_keys_after_distinct<K>(keys: Seq<K>, key: K)
    requires
        distinct(keys),
    ensures
        distinct(keys_after(keys, key)),
{
    if index_of(keys, key) is None {
        lemma_distinct_push(keys, key);
    }
}

/// An entry of a table keyed by text.
pub struct Entry<V> {
    pub key: String,
    pub value: V,
}

/// A table keyed by text.
pub struct Table<V> {
    pub entries: Vec<Entry<V>>,
}

/// The keys of the entries, in order.
pub open spec fn entry_keys<V>(entries: Seq<Entry<V>>) -> Seq<Seq<char>> {
    Seq::new(entries.len(), |i: int| entries[i].key@)
}

/// The values of the entries, in order.
pub open spec fn entry_values<V>(entries: Seq<Entry<V>>) -> Seq<V> {
    Seq::new(entries.len(), |i: int| entries[i].value)
}

impl<V: View> View for Table<V> {
    type V = Seq<(Seq<char>, V::V)>;

    /// Keys and values, in the order in which the keys were first seen.
    open spec fn view(&self) -> Seq<(Seq<char>, V::V)> {
        Seq::new(self.entries@.len(), |i: int| (self.entries@[i].key@, self.entries@[i].value@))
    }
}

/// The keys of a table model.
pub open spec fn model_keys<X>(m: Seq<(Seq<char>, X)>) -> Seq<Seq<char>> {
    Seq::new(m.len(), |i: int| m[i].0)
}

/// The values of a table model.
pub open spec fn model_values<X>(m: Seq<(Seq<char>, X)>) -> Seq<X> {
    Seq::new(m.len(), |i: int| m[i].1)
}

impl<V> Table<V> {
    /// The keys, in the order in which they were first seen.
    pub open spec fn keys(&self) -> Seq<Seq<char>> {
        entry_keys(self.entries@)
    }

    /// The values, in the order of their keys.
    pub open spec fn values(&self) -> Seq<V> {
        entry_values(self.entries@)
    }

    /// The value stored under `key`.
    pub open spec fn lookup(&self, key: Seq<char>) -> Option<V> {
        match index_of(self.keys(), key) {
            Some(i) => Some(self.entries@[i].value),
            None => None,
        }
    }

    /// A table without entries.
    pub fn new() -> (r: Self)
        ensures
            r.entries@.len() == 0,
    {
        Table { entries: Vec::new() }
    }

    /// The number of entries.
    pub fn len(&self) -> (n: usize)
        ensures
            n == self.entries@.len(),
    {
        self.entries.len()
    }

    /// The index of the entry with this key.
    pub fn find(&self, key: &str) -> (r: Option<usize>)
        ensures
            match r {
                Some(i) => index_of(self.keys(), key@) == Some(i as int) && i < self.entries@.len()
                    && self.entries@[i as int].key@ == key@,
                None => index_of(self.keys(), key@) is None,
            },
    {
        let mut i: usize = 0;
        while i < self.entries.len()
            invariant
                i <= self.entries.len(),
                index_of(self.keys().take(i as int), key@) is None,
            decreases self.entries.len() - i,
        {
            proof {
                assert(self.keys().take(i + 1).drop_last() =~= self.keys().take(i as int));
            }
            if text_eq(self.entries[i].key.as_str(), key) {
                proof {
                    lemma_index_of_prefix(self.keys(), i + 1, key@);
                }
                return Some(i);
            }
            i += 1;
        }
        assert(self.keys().take(self.entries.len() as int) =~= self.keys());
        None
    }

    /// The value stored under `key`.
    pub fn get(&self, key: &str) -> (r: Option<&V>)
        ensures
            match r {
                Some(v) => self.lookup(key@) == Some(*v),
                None => self.lookup(key@) is None,
            },
    {
        match self.find(key) {
            Some(i) => Some(&self.entries[i].value),
            None => None,
        }
    }

    /// Stores `value` under `key`: in place of the value that was stored
    /// there, or else as a new entry at the end.
    pub fn insert(&mut self, key: String, value: V)
        ensures
            final(self).lookup(key@) == Some(value),
            match index_of(old(self).keys(), key@) {
                Some(i) => final(self).keys() == old(self).keys() && final(self).values() == old(
                    self,
                ).values().update(i, value),
                None => final(self).keys() == old(self).keys().push(key@) && final(self).values()
                    == old(self).values().push(value),
            },
            distinct(old(self).keys()) ==> distinct(final(self).keys()),
    {
        proof {
            if distinct(old(self).keys()) {
                lemma_keys_after_distinct(old(self).keys(), key@);
            }
        }
        match self.find(key.as_str()) {
            Some(i) => {
                self.entries[i].value = value;
                assert(final(self).keys() =~= old(self).keys());
                assert(final(self).values() =~= old(self).values().update(i as int, value));
            },
            None => {
                self.entries.push(Entry { key, value });
                assert(final(self).keys() =~= old(self).keys().push(key@));
                assert(final(self).values() =~= old(self).values().push(value));
                assert(final(self).keys().drop_last() =~= old(self).keys());
            },
        }
    }
}

} // verus!
