//! The identifier generator: one monotone counter per entity kind, stored in
//! a stable B-tree map keyed by the kind.

use vstd::prelude::*;
use ic_stable_structures::{DefaultMemoryImpl, StableBTreeMap};

verus! {

/// The counter kind for land parcels of the registry.
pub const LAND_KIND: u8 = 0;

/// The counter kind for listings.
pub const LISTING_KIND: u8 = 1;

/// The counter kind for transactions.
pub const TRANSACTION_KIND: u8 = 2;

/// A map from entity kind to the last issued id, kept in a stable B-tree
/// map of ic_stable_structures. The verifier cannot be told that map's type
/// (its memory parameter lies outside what it accepts), so this struct is
/// opaque to it and is read only through [`counter_entries`].
#[verifier::external_body]
pub struct CounterMap {
    map: StableBTreeMap<u8, u64, DefaultMemoryImpl>,
}

/// The entries a counter map holds, kind by kind.
pub uninterp spec fn counter_entries(m: CounterMap) -> Map<u8, u64>;

/// The empty counter table: no kind has issued an id yet.
pub open spec fn no_entries() -> Map<u8, u64> {
    Map::empty()
}

/// Relies on ic_stable_structures::BTreeMap::new, which creates an empty map
/// in the given memory; `DefaultMemoryImpl::default()` supplies a fresh
/// in-process memory for it.
#[verifier::external_body]
fn new_counter_map() -> (created: CounterMap)
    ensures
        counter_entries(created) =~= no_entries(),
{
    CounterMap { map: StableBTreeMap::new(DefaultMemoryImpl::default()) }
}

/// Relies on ic_stable_structures::BTreeMap::get, which returns the value
/// stored under the key, if one is present.
#[verifier::external_body]
fn counter_map_get(m: &CounterMap, key: &u8) -> (r: Option<u64>)
    ensures
        r == (if counter_entries(*m).dom().contains(*key) {
            Some(counter_entries(*m)[*key])
        } else {
            None::<u64>
        }),
{
    m.map.get(key)
}

/// Relies on ic_stable_structures::BTreeMap::insert, which stores the value
/// under the key and returns the previous value; u8 keys and u64 values are
/// fixed-size, so the call cannot reject them.
#[verifier::external_body]
fn counter_map_insert(m: &mut CounterMap, key: u8, value: u64) -> (r: Option<u64>)
    ensures
        counter_entries(*final(m)) == counter_entries(*old(m)).insert(key, value),
        r == (if counter_entries(*old(m)).dom().contains(key) {
            Some(counter_entries(*old(m))[key])
        } else {
            None::<u64>
        }),
{
    m.map.insert(key, value)
}

/// Produces monotonically increasing ids, one independent counter per entity
/// kind. An id, once issued for a kind, is never issued again by this
/// generator.
pub struct IdGenerator {
    counters: CounterMap,
}

impl IdGenerator {
    /// The stored counters, kind by kind.
    pub closed spec fn entries(self) -> Map<u8, u64> {
        counter_entries(self.counters)
    }

    /// The last id issued for a kind; zero where none was issued yet.
    pub open spec fn spec_last(self, kind: u8) -> u64 {
        if self.entries().dom().contains(kind) {
            self.entries()[kind]
        } else {
            0
        }
    }

    /// A fresh generator with every counter at zero.
    pub fn new() -> (r: IdGenerator)
        ensures
            r.entries() == no_entries(),
            forall|kind: u8| r.spec_last(kind) == 0,
    {
        IdGenerator { counters: new_counter_map() }
    }

    /// The last id issued for `kind`, without issuing one.
    pub fn last_issued(&self, kind: u8) -> (r: u64)
        ensures
            r == self.spec_last(kind),
    {
        match counter_map_get(&self.counters, &kind) {
            Some(v) => v,
            None => 0,
        }
    }

    /// Issues the next id for `kind`: one more than the last issued.
    pub fn next(&mut self, kind: u8) -> (id: u64)
        requires
            old(self).spec_last(kind) < u64::MAX,
        ensures
            id == old(self).spec_last(kind) + 1,
            final(self).entries() == old(self).entries().insert(kind, id),
            final(self).spec_last(kind) == id,
            forall|k: u8| k != kind ==> final(self).spec_last(k) == old(self).spec_last(k),
    {
        let current = match counter_map_get(&self.counters, &kind) {
            Some(v) => v,
            None => 0,
        };
        let id = current + 1;
        counter_map_insert(&mut self.counters, kind, id);
        id
    }

    /// Issues the next land-parcel id.
    pub fn get_next_land_id(&mut self) -> (id: u64)
        requires
            old(self).spec_last(LAND_KIND) < u64::MAX,
        ensures
            id == old(self).spec_last(LAND_KIND) + 1,
            final(self).entries() == old(self).entries().insert(LAND_KIND, id),
            forall|k: u8| k != LAND_KIND ==> final(self).spec_last(k) == old(self).spec_last(k),
    {
        self.next(LAND_KIND)
    }

    /// Issues the next listing id.
    pub fn get_next_listing_id(&mut self) -> (id: u64)
        requires
            old(self).spec_last(LISTING_KIND) < u64::MAX,
        ensures
            id == old(self).spec_last(LISTING_KIND) + 1,
            final(self).entries() == old(self).entries().insert(LISTING_KIND, id),
            forall|k: u8| k != LISTING_KIND ==> final(self).spec_last(k) == old(self).spec_last(k),
    {
        self.next(LISTING_KIND)
    }

    /// Issues the next transaction id.
    pub fn get_next_transaction_id(&mut self) -> (id: u64)
        requires
            old(self).spec_last(TRANSACTION_KIND) < u64::MAX,
        ensures
            id == old(self).spec_last(TRANSACTION_KIND) + 1,
            final(self).entries() == old(self).entries().insert(TRANSACTION_KIND, id),
            forall|k: u8| k != TRANSACTION_KIND ==> final(self).spec_last(k) == old(self).spec_last(k),
    {
        self.next(TRANSACTION_KIND)
    }
}

} // verus!
