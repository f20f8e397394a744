//! A finite map keyed by address.

use crate::address::Address;
use vstd::prelude::*;

verus! {

/// Whether no address is the key of two entries.
pub open spec fn keys_distinct<V>(entries: Seq<(Address, V)>) -> bool {
    forall|i: int, j: int|
        0 <= i < entries.len() && 0 <= j < entries.len() && i != j ==> entries[i].0 != entries[j].0
}

/// Whether some entry has the given key.
pub open spec fn has_key<V>(entries: Seq<(Address, V)>, key: Address) -> bool {
    exists|i: int| 0 <= i < entries.len() && entries[i].0 == key
}

/// The position of an entry with the given key.
pub open spec fn position_of<V>(entries: Seq<(Address, V)>, key: Address) -> int {
    choose|i: int| 0 <= i < entries.len() && entries[i].0 == key
}

/// The map that a list of entries with distinct keys stands for.
pub open spec fn entries_map<V: View>(entries: Seq<(Address, V)>) -> Map<Address, V::V> {
    Map::new(
        |key: Address| has_key(entries, key),
        |key: Address| entries[position_of(entries, key)].1@,
    )
}

/// The keys of a list of entries, in order.
pub open spec fn entry_keys<V>(entries: Seq<(Address, V)>) -> Seq<Address> {
    Seq::new(entries.len(), |i: int| entries[i].0)
}

/// With distinct keys, the entry at a position is the one found under its key.
pub proof fn lemma_position_of<V>(entries: Seq<(Address, V)>, i: int)
    requires
        keys_distinct(entries),
        0 <= i < entries.len(),
    ensures
        has_key(entries, entries[i].0),
        position_of(entries, entries[i].0) == i,
{
}

/// A list of entries with distinct keys has as many entries as its map has keys.
pub proof fn lemma_entries_map_len<V: View>(entries: Seq<(Address, V)>)
    requires
        keys_distinct(entries),
    ensures
        entries_map(entries).dom().finite(),
        entries_map(entries).dom().len() == entries.len(),
{
    let keys = entry_keys(entries);
    assert(keys.no_duplicates());
    assert(keys.to_set() =~= entries_map(entries).dom()) by {
        assert forall|key: Address| keys.to_set().contains(key) implies has_key(entries, key) by {
            let i = choose|i: int| 0 <= i < keys.len() && keys[i] == key;
            assert(entries[i].0 == key);
        }
        assert forall|key: Address| has_key(entries, key) implies keys.to_set().contains(key) by {
            let i = position_of(entries, key);
            assert(keys[i] == key);
        }
    }
    keys.unique_seq_to_set();
}

/// Appending an entry under a new key adds that key to the map.
pub proof fn lemma_push_entry<V: View>(entries: Seq<(Address, V)>, key: Address, value: V)
    requires
        keys_distinct(entries),
        !has_key(entries, key),
    ensures
        keys_distinct(entries.push((key, value))),
        entries_map(entries.push((key, value))) == entries_map(entries).insert(key, value@),
{
    let after = entries.push((key, value));
    assert(keys_distinct(after)) by {
        assert forall|i: int, j: int|
            0 <= i < after.len() && 0 <= j < after.len() && i != j implies after[i].0
            != after[j].0 by {
            if i < entries.len() && j < entries.len() {
                assert(entries[i].0 != entries[j].0);
            } else if i < entries.len() {
                assert(entries[i].0 != key);
            } else {
                assert(entries[j].0 != key);
            }
        }
    }
    assert forall|k: Address| has_key(after, k) <==> (k == key || has_key(entries, k)) by {
        if has_key(after, k) {
            let i = position_of(after, k);
            if i < entries.len() {
                assert(entries[i].0 == k);
            }
        }
        if has_key(entries, k) {
            let i = position_of(entries, k);
            assert(after[i].0 == k);
        }
        if k == key {
            assert(after[entries.len() as int].0 == k);
        }
    }
    assert forall|k: Address| has_key(after, k) implies entries_map(after)[k] == entries_map(
        entries,
    ).insert(key, value@)[k] by {
        let i = position_of(after, k);
        lemma_position_of(after, i);
        if k != key {
            let j = position_of(entries, k);
            assert(after[j].0 == k);
            lemma_position_of(after, j);
        }
    }
    assert(entries_map(after) =~= entries_map(entries).insert(key, value@));
}

/// Replacing the entry at a position by one with the same key changes only
/// the value under that key.
pub proof fn lemma_update_entry<V: View>(entries: Seq<(Address, V)>, i: int, value: V)
    requires
        keys_distinct(entries),
        0 <= i < entries.len(),
    ensures
        keys_distinct(entries.update(i, (entries[i].0, value))),
        entries_map(entries.update(i, (entries[i].0, value))) == entries_map(entries).insert(
            entries[i].0,
            value@,
        ),
{
    let key = entries[i].0;
    let after = entries.update(i, (key, value));
    assert forall|j: int| 0 <= j < entries.len() implies after[j].0 == entries[j].0 by {}
    assert(keys_distinct(after)) by {
        assert forall|a: int, b: int|
            0 <= a < after.len() && 0 <= b < after.len() && a != b implies after[a].0
            != after[b].0 by {
            assert(entries[a].0 != entries[b].0);
        }
    }
    assert forall|k: Address| has_key(after, k) <==> has_key(entries, k) by {
        if has_key(after, k) {
            let j = position_of(after, k);
            assert(entries[j].0 == k);
        }
        if has_key(entries, k) {
            let j = position_of(entries, k);
            assert(after[j].0 == k);
        }
    }
    assert(has_key(entries, key));
    assert forall|k: Address| has_key(after, k) implies entries_map(after)[k] == entries_map(
        entries,
    ).insert(key, value@)[k] by {
        let j = position_of(after, k);
        lemma_position_of(after, j);
        assert(entries[j].0 == k);
        lemma_position_of(entries, j);
    }
    assert(entries_map(after) =~= entries_map(entries).insert(key, value@));
}

/// A finite map from addresses to values, in which each address has at most
/// one entry.
#[derive(Debug)]
pub struct AddressMap<V> {
    entries: Vec<(Address, V)>,
}

impl<V: View> View for AddressMap<V> {
    type V = Map<Address, V::V>;

    closed spec fn view(&self) -> Map<Address, V::V> {
        entries_map(self.entries@)
    }
}

impl<V> AddressMap<V> {
    #[verifier::type_invariant]
    spec fn well_formed(self) -> bool {
        keys_distinct(self.entries@)
    }
}

impl<V: View> AddressMap<V> {
    /// The map without entries.
    pub fn new() -> (map: Self)
        ensures
            map@ == Map::<Address, V::V>::empty(),
    {
        let map = AddressMap { entries: Vec::new() };
        assert(map@ =~= Map::<Address, V::V>::empty());
        map
    }

    /// The number of entries.
    pub fn len(&self) -> (count: usize)
        ensures
            self@.dom().finite(),
            count == self@.len(),
    {
        proof {
            use_type_invariant(self);
            lemma_entries_map_len(self.entries@);
        }
        self.entries.len()
    }

    /// Whether the map has no entries.
    pub fn is_empty(&self) -> (empty: bool)
        ensures
            empty == (self@ == Map::<Address, V::V>::empty()),
    {
        proof {
            use_type_invariant(self);
            lemma_entries_map_len(self.entries@);
            if self.entries@.len() == 0 {
                assert(self@ =~= Map::<Address, V::V>::empty());
            }
        }
        self.entries.len() == 0
    }

    fn find(&self, key: &Address) -> (found: Option<usize>)
        ensures
            match found {
                Some(i) => i < self.entries@.len() && self.entries@[i as int].0 == *key,
                None => !has_key(self.entries@, *key),
            },
    {
        let mut i: usize = 0;
        while i < self.entries.len()
            invariant
                i <= self.entries@.len(),
                forall|j: int| 0 <= j < i ==> self.entries@[j].0 != *key,
            decreases self.entries@.len() - i,
        {
            if self.entries[i].0 == *key {
                return Some(i);
            }
            i += 1;
        }
        None
    }

    /// Whether the address has an entry.
    pub fn contains_key(&self, key: &Address) -> (present: bool)
        ensures
            present == self@.contains_key(*key),
    {
        self.find(key).is_some()
    }

    /// The value under the address, if it has an entry.
    pub fn get(&self, key: &Address) -> (value: Option<&V>)
        ensures
            match value {
                Some(v) => self@.contains_key(*key) && self@[*key] == v@,
                None => !self@.contains_key(*key),
            },
    {
        match self.find(key) {
            Some(i) => {
                proof {
                    use_type_invariant(self);
                    lemma_position_of(self.entries@, i as int);
                }
                Some(&self.entries[i].1)
            },
            None => None,
        }
    }

    /// Puts the value under the address, in place of any value that was there.
    pub fn insert(&mut self, key: Address, value: V)
        ensures
            final(self)@ == old(self)@.insert(key, value@),
    {
        proof {
            use_type_invariant(&*self);
        }
        let found = self.find(&key);
        let mut entries: Vec<(Address, V)> = Vec::new();
        core::mem::swap(&mut self.entries, &mut entries);
        match found {
            Some(i) => {
                proof {
                    lemma_update_entry(entries@, i as int, value);
                }
                entries.set(i, (key, value));
            },
            None => {
                proof {
                    lemma_push_entry(entries@, key, value);
                }
                entries.push((key, value));
            },
        }
        core::mem::swap(&mut self.entries, &mut entries);
    }

    /// The entries of the map, each address once.
    pub fn into_entries(self) -> (entries: Vec<(Address, V)>)
        ensures
            keys_distinct(entries@),
            entries_map(entries@) == self@,
    {
        proof {
            use_type_invariant(&self);
        }
        self.entries
    }
}

} // verus!
