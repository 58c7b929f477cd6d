//! A small map that keeps its entries in a vector.
//!
//! No key occurs twice. Contracts speak of the map that the entries spell:
//! from each key's view to the value held under it.

use vstd::prelude::*;

verus! {

/// A key: a value whose view says which key it is, and which can be held
/// against another.
pub trait MapKey: View + Sized {
    /// Whether the two are the same key.
    fn same_key(&self, other: &Self) -> (same: bool)
        ensures
            same == (self@ == other@),
    ;
}

impl MapKey for String {
    fn same_key(&self, other: &String) -> (same: bool) {
        *self == *other
    }
}

/// A map from keys to values.
pub struct VecMap<K: MapKey, V> {
    entries: Vec<(K, V)>,
}

impl<K: MapKey, V> VecMap<K, V> {
    #[verifier::type_invariant]
    spec fn distinct_keys(self) -> bool {
        forall|i: int, j: int|
            0 <= i < j < self.entries@.len() ==> (#[trigger] self.entries@[i]).0@
                != (#[trigger] self.entries@[j]).0@
    }

    /// Whether the entry at `i` is held under `key`.
    spec fn holds_at(self, i: int, key: K::V) -> bool {
        0 <= i < self.entries@.len() && self.entries@[i].0@ == key
    }

    /// The map that the entries spell.
    pub closed spec fn view(&self) -> Map<K::V, V> {
        Map::new(
            |key: K::V| exists|i: int| self.holds_at(i, key),
            |key: K::V| self.entries@[choose|i: int| self.holds_at(i, key)].1,
        )
    }

    /// The entry at `i` is in the map, under its key.
    proof fn lemma_entry(self, i: int)
        requires
            self.distinct_keys(),
            0 <= i < self.entries@.len(),
        ensures
            self@.contains_key(self.entries@[i].0@),
            self@[self.entries@[i].0@] == self.entries@[i].1,
    {
        let key = self.entries@[i].0@;
        assert(self.holds_at(i, key));
        let found = choose|j: int| self.holds_at(j, key);
        assert(found == i);
    }

    /// A map without entries.
    pub fn new() -> (map: Self)
        ensures
            map@ == Map::<K::V, V>::empty(),
    {
        let map = VecMap { entries: Vec::new() };
        assert(map@ =~= Map::<K::V, V>::empty());
        map
    }

    /// Where the entry of `key` stands, if the map has one.
    fn position(&self, key: &K) -> (place: Option<usize>)
        ensures
            place is Some <==> self@.contains_key(key@),
            place matches Some(i) ==> self.holds_at(i as int, key@),
    {
        let mut i: usize = 0;
        while i < self.entries.len()
            invariant
                i <= self.entries@.len(),
                forall|j: int| 0 <= j < i ==> !self.holds_at(j, key@),
            decreases self.entries@.len() - i,
        {
            if self.entries[i].0.same_key(key) {
                assert(self.holds_at(i as int, key@));
                return Some(i);
            }
            i = i + 1;
        }
        None
    }

    /// Whether the map has an entry under `key`.
    pub fn contains_key(&self, key: &K) -> (found: bool)
        ensures
            found == self@.contains_key(key@),
    {
        self.position(key).is_some()
    }

    /// Whether the map is without entries.
    pub fn is_empty(&self) -> (empty: bool)
        ensures
            empty == (self@ == Map::<K::V, V>::empty()),
    {
        proof {
            use_type_invariant(self);
            if self.entries@.len() > 0 {
                self.lemma_entry(0);
            } else {
                assert(self@ =~= Map::<K::V, V>::empty());
            }
        }
        self.entries.len() == 0
    }

    /// The value held under `key`, if the map has one.
    pub fn get(&self, key: &K) -> (value: Option<&V>)
        ensures
            value is Some <==> self@.contains_key(key@),
            value matches Some(v) ==> *v == self@[key@],
    {
        proof {
            use_type_invariant(self);
        }
        match self.position(key) {
            Some(i) => {
                proof {
                    self.lemma_entry(i as int);
                }
                Some(&self.entries[i].1)
            },
            None => None,
        }
    }

    /// Holds `value` under `key`, in place of what was held there.
    pub fn insert(&mut self, key: K, value: V)
        ensures
            final(self)@ == old(self)@.insert(key@, value),
    {
        proof {
            use_type_invariant(&*self);
        }
        let ghost before = *self;
        let ghost name = key@;
        match self.position(&key) {
            Some(i) => {
                let mut entries: Vec<(K, V)> = Vec::new();
                core::mem::swap(&mut self.entries, &mut entries);
                entries[i] = (key, value);
                self.entries = entries;
                assert forall|k: K::V| self@.contains_key(k) == before@.insert(
                    name,
                    value,
                ).contains_key(k) by {
                    if before@.contains_key(k) || k == name {
                        let j = if k == name {
                            i as int
                        } else {
                            choose|j: int| before.holds_at(j, k)
                        };
                        assert(self.holds_at(j, k));
                    }
                    if self@.contains_key(k) {
                        let j = choose|j: int| self.holds_at(j, k);
                        assert(before.holds_at(j, k));
                    }
                }
                assert forall|k: K::V| self@.contains_key(k) implies self@[k] == before@.insert(
                    name,
                    value,
                )[k] by {
                    let j = choose|j: int| self.holds_at(j, k);
                    self.lemma_entry(j);
                    if k != name {
                        before.lemma_entry(j);
                    }
                }
                assert(self@ =~= before@.insert(name, value));
            },
            None => {
                let mut entries: Vec<(K, V)> = Vec::new();
                core::mem::swap(&mut self.entries, &mut entries);
                entries.push((key, value));
                let ghost last = before.entries@.len() as int;
                assert forall|a: int, b: int| 0 <= a < b < entries@.len() implies (
                #[trigger] entries@[a]).0@ != (#[trigger] entries@[b]).0@ by {
                    if b == last {
                        assert(!before.holds_at(a, name));
                    } else {
                        assert(entries@[a] == before.entries@[a]);
                        assert(entries@[b] == before.entries@[b]);
                    }
                }
                self.entries = entries;
                assert forall|k: K::V| self@.contains_key(k) == before@.insert(
                    name,
                    value,
                ).contains_key(k) by {
                    if before@.contains_key(k) || k == name {
                        let j = if k == name {
                            last
                        } else {
                            choose|j: int| before.holds_at(j, k)
                        };
                        assert(self.holds_at(j, k));
                    }
                    if self@.contains_key(k) {
                        let j = choose|j: int| self.holds_at(j, k);
                        if j < last {
                            assert(before.holds_at(j, k));
                        }
                    }
                }
                assert forall|k: K::V| self@.contains_key(k) implies self@[k] == before@.insert(
                    name,
                    value,
                )[k] by {
                    let j = choose|j: int| self.holds_at(j, k);
                    self.lemma_entry(j);
                    if j < last {
                        before.lemma_entry(j);
                    }
                }
                assert(self@ =~= before@.insert(name, value));
            },
        }
    }

    /// Takes the entry of `key` out, and gives the value that it held.
    pub fn remove(&mut self, key: &K) -> (value: Option<V>)
        ensures
            final(self)@ == old(self)@.remove(key@),
            value is Some <==> old(self)@.contains_key(key@),
            value matches Some(v) ==> v == old(self)@[key@],
    {
        proof {
            use_type_invariant(&*self);
        }
        let ghost before = *self;
        let ghost name = key@;
        match self.position(key) {
            Some(i) => {
                proof {
                    before.lemma_entry(i as int);
                }
                let mut entries: Vec<(K, V)> = Vec::new();
                core::mem::swap(&mut self.entries, &mut entries);
                let entry = entries.remove(i);
                self.entries = entries;
                assert forall|k: K::V| self@.contains_key(k) == before@.remove(name).contains_key(
                    k,
                ) by {
                    if before@.contains_key(k) && k != name {
                        let j = choose|j: int| before.holds_at(j, k);
                        let moved = if j < i {
                            j
                        } else {
                            j - 1
                        };
                        assert(self.holds_at(moved, k));
                    }
                    if self@.contains_key(k) {
                        let j = choose|j: int| self.holds_at(j, k);
                        let origin = if j < i {
                            j
                        } else {
                            j + 1
                        };
                        assert(before.holds_at(origin, k));
                    }
                }
                assert forall|k: K::V| self@.contains_key(k) implies self@[k] == before@.remove(
                    name,
                )[k] by {
                    let j = choose|j: int| self.holds_at(j, k);
                    let origin = if j < i {
                        j
                    } else {
                        j + 1
                    };
                    self.lemma_entry(j);
                    before.lemma_entry(origin);
                }
                assert(self@ =~= before@.remove(name));
                Some(entry.1)
            },
            None => {
                assert(self@ =~= before@.remove(name));
                None
            },
        }
    }
}

} // verus!
