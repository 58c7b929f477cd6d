//! The table of the store: from each key to the record held under it.
//!
//! The table holds bytes and asks nothing of them. It never writes to the
//! disk itself: what a cache on disk held is handed to it at start, and he
//! who sets a value sees to its persistence.

use crate::vec_map::VecMap;
use vstd::prelude::*;

verus! {

/// The table as contracts see it: from a key's characters to the bytes held
/// under it.
pub type Table = Map<Seq<char>, Seq<u8>>;

/// The table after each entry of `cache` has been set in it, the first
/// first: a key that occurs twice keeps what came last.
pub open spec fn spec_read_cache(table: Table, cache: Seq<(Seq<char>, Seq<u8>)>) -> Table
    decreases cache.len(),
{
    if cache.len() == 0 {
        table
    } else {
        spec_read_cache(table, cache.drop_last()).insert(cache.last().0, cache.last().1)
    }
}

/// The entries of a cache as contracts see them.
pub open spec fn cache_view(cache: Seq<(String, Vec<u8>)>) -> Seq<(Seq<char>, Seq<u8>)> {
    cache.map_values(|entry: (String, Vec<u8>)| (entry.0@, entry.1@))
}

/// The table of the store.
pub struct MyRedisService {
    db: VecMap<String, Vec<u8>>,
}

impl View for MyRedisService {
    type V = Table;

    closed spec fn view(&self) -> Table {
        self.db@.map_values(|value: Vec<u8>| value@)
    }
}

impl MyRedisService {
    /// A table without entries.
    pub fn new() -> (service: Self)
        ensures
            service@ == Table::empty(),
    {
        let service = MyRedisService { db: VecMap::new() };
        assert(service@ =~= Table::empty());
        service
    }

    /// The record held under `key`, if there is one.
    pub fn get(&self, key: &str) -> (value: Option<Vec<u8>>)
        ensures
            value is Some <==> self@.contains_key(key@),
            value matches Some(bytes) ==> bytes@ == self@[key@],
    {
        let key: String = key.to_owned();
        match self.db.get(&key) {
            Some(value) => Some(value.clone()),
            None => None,
        }
    }

    /// Holds `value` under `key`, in place of what was held there.
    pub fn set(&mut self, key: String, value: Vec<u8>)
        ensures
            final(self)@ == old(self)@.insert(key@, value@),
    {
        self.db.insert(key, value);
        assert(self@ =~= old(self)@.insert(key@, value@));
    }

    /// Takes the entry of `key` out, if there is one.
    pub fn remove(&mut self, key: &str)
        ensures
            final(self)@ == old(self)@.remove(key@),
    {
        let key: String = key.to_owned();
        let _ = self.db.remove(&key);
        assert(self@ =~= old(self)@.remove(key@));
    }

    /// Whether a record is held under `key`.
    pub fn exists_by_key(&self, key: &str) -> (found: bool)
        ensures
            found == self@.contains_key(key@),
    {
        let key: String = key.to_owned();
        self.db.contains_key(&key)
    }

    /// Whether the table is without entries.
    pub fn is_empty(&self) -> (empty: bool)
        ensures
            empty == (self@ == Table::empty()),
    {
        let empty = self.db.is_empty();
        proof {
            if empty {
                assert(self@ =~= Table::empty());
            } else {
                assert(!(self.db@ =~= Map::<Seq<char>, Vec<u8>>::empty()));
                let key = choose|key: Seq<char>| self.db@.contains_key(key);
                assert(self@.contains_key(key));
            }
        }
        empty
    }

    /// Sets each entry of `cache`, the first first, as it is: what a cache
    /// on disk held becomes the table's without a change.
    pub fn read_cache(&mut self, cache: Vec<(String, Vec<u8>)>)
        ensures
            final(self)@ == spec_read_cache(old(self)@, cache_view(cache@)),
    {
        let ghost entries = cache@;
        for entry in it: cache
            invariant
                it.seq() == entries,
                self@ == spec_read_cache(
                    old(self)@,
                    cache_view(entries.take(it.index() as int)),
                ),
        {
            let ghost done = it.index() as int;
            let (key, value) = entry;
            proof {
                let loaded = cache_view(entries.take(done + 1));
                assert(loaded.drop_last() =~= cache_view(entries.take(done)));
                assert(loaded.last() == (key@, value@));
            }
            self.set(key, value);
        }
        assert(entries.take(entries.len() as int) =~= entries);
    }
}

} // verus!
