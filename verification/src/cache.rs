//! A store of decoded values, keyed by address.

use crate::address::Address;
use crate::address_map::AddressMap;
use crate::decode::{option_view, Decoded};
use vstd::prelude::*;

verus! {

/// A cache of decoded values: at most one per address, kept until a later
/// value for the same address replaces it. Nothing is ever evicted.
#[derive(Debug)]
pub struct AccountCache<V> {
    entries: AddressMap<V>,
}

impl<V: View> View for AccountCache<V> {
    type V = Map<Address, V::V>;

    closed spec fn view(&self) -> Map<Address, V::V> {
        self.entries@
    }
}

impl<V: Decoded> AccountCache<V> {
    /// The cache that holds nothing.
    pub fn new() -> (cache: Self)
        ensures
            cache@ == Map::<Address, V::V>::empty(),
    {
        AccountCache { entries: AddressMap::new() }
    }

    /// The number of addresses that have a value.
    pub fn len(&self) -> (count: usize)
        ensures
            self@.dom().finite(),
            count == self@.len(),
    {
        self.entries.len()
    }

    /// Whether the address has a value.
    pub fn contains(&self, address: &Address) -> (present: bool)
        ensures
            present == self@.contains_key(*address),
    {
        self.entries.contains_key(address)
    }

    /// The cached value of the address, if it has one.
    pub fn get(&self, address: &Address) -> (value: Option<&V>)
        ensures
            match value {
                Some(v) => self@.contains_key(*address) && self@[*address] == v@,
                None => !self@.contains_key(*address),
            },
    {
        self.entries.get(address)
    }

    /// A copy of the cached value of the address, if it has one.
    pub fn lookup(&self, address: &Address) -> (value: Option<V>)
        ensures
            option_view(value) == if self@.contains_key(*address) {
                Some(self@[*address])
            } else {
                None
            },
    {
        match self.entries.get(address) {
            Some(v) => Some(v.duplicate()),
            None => None,
        }
    }

    /// Caches the value for the address, in place of any value cached for it
    /// before.
    pub fn insert(&mut self, address: Address, value: V)
        ensures
            final(self)@ == old(self)@.insert(address, value@),
    {
        self.entries.insert(address, value);
    }
}

} // verus!
