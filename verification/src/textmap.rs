//! A small map from text keys to values, kept in insertion order.
//!
//! It holds at most one entry per key: inserting under a key that is present
//! replaces the value and keeps the entry's place.

use vstd::prelude::*;

verus! {

/// One entry of a [`TextMap`].
pub struct Entry<V> {
    pub key: String,
    pub value: V,
}

/// The keys of a run of entries, in order.
pub open spec fn entry_keys<V>(entries: Seq<Entry<V>>) -> Seq<Seq<char>> {
    Seq::new(entries.len(), |i: int| entries[i].key@)
}

/// The values of a run of entries, in order.
pub open spec fn entry_values<V>(entries: Seq<Entry<V>>) -> Seq<V> {
    Seq::new(entries.len(), |i: int| entries[i].value)
}

/// A map from text to `V` that remembers the order in which keys arrived.
pub struct TextMap<V> {
    entries: Vec<Entry<V>>,
}

impl<V> TextMap<V> {
    #[verifier::type_invariant]
    spec fn distinct_keys(self) -> bool {
        entry_keys(self.entries@).no_duplicates()
    }

    /// The keys, in the order in which they were first inserted.
    pub closed spec fn keys(&self) -> Seq<Seq<char>> {
        entry_keys(self.entries@)
    }

    /// The values, each at the index of its key in [`Self::keys`].
    pub closed spec fn values(&self) -> Seq<V> {
        entry_values(self.entries@)
    }

    /// The map from each key to its value.
    pub open spec fn view(&self) -> Map<Seq<char>, V> {
        Map::new(
            |k: Seq<char>| self.keys().contains(k),
            |k: Seq<char>| self.values()[self.keys().index_of(k)],
        )
    }

    /// An empty map.
    pub fn new() -> (map: Self)
        ensures
            map.keys() == Seq::<Seq<char>>::empty(),
            map.values() == Seq::<V>::empty(),
            map@ == Map::<Seq<char>, V>::empty(),
    {
        let map = TextMap { entries: Vec::new() };
        assert(map.keys() =~= Seq::<Seq<char>>::empty());
        assert(map.values() =~= Seq::<V>::empty());
        assert(map@ =~= Map::<Seq<char>, V>::empty());
        map
    }

    /// The number of entries.
    pub fn len(&self) -> (n: usize)
        ensures
            n == self.keys().len(),
            n == self.values().len(),
            self.keys().no_duplicates(),
    {
        proof {
            use_type_invariant(self);
        }
        self.entries.len()
    }

    /// The index of `key` among the keys, if it is present.
    pub fn position(&self, key: &String) -> (found: Option<usize>)
        ensures
            self.keys().no_duplicates(),
            match found {
                Some(i) => i < self.keys().len() && self.keys()[i as int] == key@,
                None => !self.keys().contains(key@),
            },
    {
        proof {
            use_type_invariant(self);
        }
        let mut i: usize = 0;
        while i < self.entries.len()
            invariant
                i <= self.entries.len(),
                self.keys().no_duplicates(),
                forall|j: int| 0 <= j < i ==> self.keys()[j] != key@,
            decreases self.entries.len() - i,
        {
            if self.entries[i].key == *key {
                return Some(i);
            }
            i += 1;
        }
        None
    }

    /// Whether `key` is present.
    pub fn contains_key(&self, key: &String) -> (found: bool)
        ensures
            found == self@.contains_key(key@),
    {
        self.position(key).is_some()
    }

    /// The value under `key`, if it is present.
    pub fn get(&self, key: &String) -> (found: Option<&V>)
        ensures
            match found {
                Some(v) => self@.contains_key(key@) && *v == self@[key@],
                None => !self@.contains_key(key@),
            },
    {
        match self.position(key) {
            Some(i) => {
                assert(self.keys().contains(key@));
                assert(self.keys().index_of(key@) == i);
                Some(&self.entries[i].value)
            },
            None => None,
        }
    }

    /// The entry at index `i`, counted in insertion order.
    pub fn entry(&self, i: usize) -> (e: &Entry<V>)
        requires
            i < self.keys().len(),
        ensures
            e.key@ == self.keys()[i as int],
            e.value == self.values()[i as int],
            self@.contains_key(e.key@),
            self@[e.key@] == e.value,
            self.keys().no_duplicates(),
    {
        proof {
            use_type_invariant(self);
            assert(self.keys().contains(self.keys()[i as int]));
            assert(self.keys().index_of(self.keys()[i as int]) == i);
        }
        &self.entries[i]
    }

    /// Puts `value` under `key`. A value that was there before is replaced,
    /// and its key keeps its place; a new key goes to the end.
    pub fn insert(&mut self, key: String, value: V)
        ensures
            final(self)@ == old(self)@.insert(key@, value),
            final(self).keys().no_duplicates(),
            old(self).keys().contains(key@) ==> {
                &&& final(self).keys() == old(self).keys()
                &&& final(self).values() == old(self).values().update(
                    old(self).keys().index_of(key@),
                    value,
                )
            },
            !old(self).keys().contains(key@) ==> {
                &&& final(self).keys() == old(self).keys().push(key@)
                &&& final(self).values() == old(self).values().push(value)
            },
    {
        let ghost before = *self;
        let found = self.position(&key);
        let mut entries: Vec<Entry<V>> = Vec::new();
        std::mem::swap(&mut entries, &mut self.entries);
        match found {
            Some(i) => {
                assert(before.keys().index_of(key@) == i);
                entries.set(i, Entry { key, value });
                assert(entry_keys(entries@) =~= before.keys());
                assert(entry_values(entries@) =~= before.values().update(i as int, value));
            },
            None => {
                entries.push(Entry { key, value });
                assert(entry_keys(entries@) =~= before.keys().push(key@));
                assert(entry_values(entries@) =~= before.values().push(value));
            },
        }
        self.entries = entries;
        proof {
            let after = *self;
            assert forall|k: Seq<char>| after@.contains_key(k) == before@.insert(
                key@,
                value,
            ).contains_key(k) by {
                if after.keys().contains(k) {
                    let j = after.keys().index_of(k);
                    if k != key@ {
                        assert(before.keys()[j] == k);
                    }
                }
                if before.keys().contains(k) {
                    let j = before.keys().index_of(k);
                    assert(after.keys()[j] == k);
                }
                if k == key@ {
                    if found is None {
                        assert(after.keys()[before.keys().len() as int] == k);
                    }
                }
            }
            assert forall|k: Seq<char>| after@.contains_key(k) implies after@[k] == before@.insert(
                key@,
                value,
            )[k] by {
                let j = after.keys().index_of(k);
                if k != key@ {
                    assert(before.keys()[j] == k);
                    assert(before.keys().index_of(k) == j);
                } else {
                    if found is None {
                        assert(after.keys()[before.keys().len() as int] == k);
                        assert(j == before.keys().len());
                    }
                }
            }
            assert(after@ =~= before@.insert(key@, value));
        }
    }
}

} // verus!
