//! Strictly increasing identifier generation, backed by the same durable
//! ordered map the rest of the system persists through: the counter lives
//! under one fixed key of an `ic_stable_structures::BTreeMap`.
//!
//! The wrappers' contracts assume each store exclusively owns its backing
//! memory. That holds of the in-heap memory a fresh store is created
//! over; on a host whose default memory is one shared stable memory, at
//! most one store — one `Marketplace` — may exist per process.

use vstd::prelude::*;

verus! {

/// The durable ordered map the identifier counter is kept in. The map
/// itself is `ic_stable_structures::BTreeMap`; Verus sees it only through
/// `id_store_map` and the wrappers below.
#[verifier::external_body]
pub struct IdStore {
    map: ic_stable_structures::BTreeMap<u64, u64, ic_stable_structures::DefaultMemoryImpl>,
}

/// The key/value pairs a durable id store holds.
pub uninterp spec fn id_store_map(m: IdStore) -> Map<u64, u64>;

/// The contents of a store that holds nothing yet.
pub open spec fn empty_id_store_map() -> Map<u64, u64> {
    Map::empty()
}

/// Relies on `ic_stable_structures::BTreeMap::new`, over a fresh in-heap
/// `DefaultMemoryImpl`: a newly created map holds no entries.
#[verifier::external_body]
fn id_store_new() -> (m: IdStore)
    ensures
        id_store_map(m) == empty_id_store_map(),
{
    IdStore { map: ic_stable_structures::BTreeMap::new(ic_stable_structures::DefaultMemoryImpl::default()) }
}

/// Relies on `ic_stable_structures::BTreeMap::get`: returns the value
/// stored under the key, if there is one.
#[verifier::external_body]
fn id_store_get(m: &IdStore, key: u64) -> (r: Option<u64>)
    ensures
        r == if id_store_map(*m).dom().contains(key) {
            Some(id_store_map(*m)[key])
        } else {
            None::<u64>
        },
{
    m.map.get(&key)
}

/// Relies on `ic_stable_structures::BTreeMap::insert`: stores the value
/// under the key and returns the previously stored value, if any. A `u64`
/// key or value is fixed-size, within the storable bound the method asks.
#[verifier::external_body]
fn id_store_insert(m: &mut IdStore, key: u64, value: u64) -> (r: Option<u64>)
    ensures
        id_store_map(*final(m)) == id_store_map(*old(m)).insert(key, value),
        r == if id_store_map(*old(m)).dom().contains(key) {
            Some(id_store_map(*old(m))[key])
        } else {
            None::<u64>
        },
{
    m.map.insert(key, value)
}

/// The single key the counter is stored under.
pub const COUNTER_KEY: u64 = 0;

/// Hands out strictly increasing, never repeating identifiers, shared by
/// every entity kind. A read-increment-write suffices under the
/// run-to-completion scheduling the host gives each call.
pub struct SequenceGenerator {
    store: IdStore,
}

impl SequenceGenerator {
    /// The identifier handed out last; zero before the first call.
    pub closed spec fn counter(self) -> int {
        if id_store_map(self.store).dom().contains(COUNTER_KEY) {
            id_store_map(self.store)[COUNTER_KEY] as int
        } else {
            0
        }
    }

    pub fn new() -> (s: Self)
        ensures
            s.counter() == 0,
    {
        SequenceGenerator { store: id_store_new() }
    }

    /// Reads the counter without advancing it.
    pub fn current(&self) -> (r: u64)
        ensures
            r as int == self.counter(),
    {
        match id_store_get(&self.store, COUNTER_KEY) {
            Some(v) => v,
            None => 0,
        }
    }

    /// Advances the counter and returns the fresh identifier.
    pub fn get_next_id(&mut self) -> (id: u64)
        requires
            old(self).counter() < u64::MAX as int,
        ensures
            final(self).counter() == old(self).counter() + 1,
            id as int == final(self).counter(),
    {
        let current: u64 = self.current();
        let next: u64 = current + 1;
        id_store_insert(&mut self.store, COUNTER_KEY, next);
        next
    }
}

} // verus!
