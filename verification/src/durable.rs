//! The durable substrate: an ordered map from ID to encoded record and a
//! counter cell, both from `ic_stable_structures`, held opaquely and
//! reached only through the trusted wrappers below.

use ic_stable_structures::memory_manager::MemoryId;
use ic_stable_structures::memory_manager::MemoryManager;
use ic_stable_structures::Cell;
use ic_stable_structures::DefaultMemoryImpl;
use ic_stable_structures::StableBTreeMap;
use vstd::prelude::*;

verus! {

/// The durable state: a counter cell and an ordered map from 64-bit ID to
/// encoded record bytes, backed by two regions of one managed memory.
#[verifier::external_body]
pub struct Durable {
    counter: Cell<u64, ic_stable_structures::memory_manager::VirtualMemory<DefaultMemoryImpl>>,
    map: StableBTreeMap<
        u64,
        Vec<u8>,
        ic_stable_structures::memory_manager::VirtualMemory<DefaultMemoryImpl>,
    >,
}

/// An empty byte-string map, named so that contracts can state emptiness
/// in one token.
pub open spec fn empty_contents() -> Map<u64, Seq<u8>> {
    Map::empty()
}

/// What the durable map holds: the bytes stored under each ID.
pub uninterp spec fn map_contents(d: Durable) -> Map<u64, Seq<u8>>;

/// The value the durable counter cell holds.
pub uninterp spec fn counter_value(d: Durable) -> u64;

/// Relies on ic_stable_structures: MemoryManager::init on a fresh default
/// memory, Cell::init (a fresh memory holds no cell, so the cell takes the
/// given initial value), and StableBTreeMap::init (empty on a fresh
/// memory).
#[verifier::external_body]
pub(crate) fn durable_new(initial_counter: u64) -> (dur: Durable)
    ensures
        counter_value(dur) == initial_counter,
        map_contents(dur) == empty_contents(),
{
    let manager = MemoryManager::init(DefaultMemoryImpl::default());
    let counter = Cell::init(manager.get(MemoryId::new(0)), initial_counter);
    let map = StableBTreeMap::init(manager.get(MemoryId::new(1)));
    Durable { counter, map }
}

/// Relies on ic_stable_structures::Cell::get: returns the value the cell
/// holds.
#[verifier::external_body]
pub(crate) fn counter_get(d: &Durable) -> (v: u64)
    ensures
        v == counter_value(*d),
{
    *d.counter.get()
}

/// Relies on ic_stable_structures::Cell::set: writes the new value to the
/// cell; the map is untouched. A failure to write the backing memory
/// aborts, which the store treats as a fatal substrate fault.
#[verifier::external_body]
pub(crate) fn counter_set(d: &mut Durable, v: u64)
    ensures
        counter_value(*final(d)) == v,
        map_contents(*final(d)) == map_contents(*old(d)),
{
    let _previous = d.counter.set(v);
}

/// Relies on ic_stable_structures::StableBTreeMap::get: the value stored
/// under the key, if one is present.
#[verifier::external_body]
pub(crate) fn map_get(d: &Durable, key: u64) -> (r: Option<Vec<u8>>)
    ensures
        match r {
            Some(v) => map_contents(*d).contains_key(key) && v@ == map_contents(*d)[key],
            None => !map_contents(*d).contains_key(key),
        },
{
    d.map.get(&key)
}

/// Relies on ic_stable_structures::StableBTreeMap::insert: stores the
/// value under the key, replacing any previous value; the counter cell is
/// untouched.
#[verifier::external_body]
pub(crate) fn map_insert(d: &mut Durable, key: u64, value: Vec<u8>)
    ensures
        map_contents(*final(d)) == map_contents(*old(d)).insert(key, value@),
        counter_value(*final(d)) == counter_value(*old(d)),
{
    let _previous = d.map.insert(key, value);
}

/// Relies on ic_stable_structures::StableBTreeMap::remove: removes the
/// entry under the key and returns its value, if one was present; the
/// counter cell is untouched.
#[verifier::external_body]
pub(crate) fn map_remove(d: &mut Durable, key: u64) -> (r: Option<Vec<u8>>)
    ensures
        map_contents(*final(d)) == map_contents(*old(d)).remove(key),
        counter_value(*final(d)) == counter_value(*old(d)),
        match r {
            Some(v) => map_contents(*old(d)).contains_key(key) && v@ == map_contents(*old(d))[key],
            None => !map_contents(*old(d)).contains_key(key),
        },
{
    d.map.remove(&key)
}

/// Relies on ic_stable_structures::StableBTreeMap::len: the number of
/// entries in the map.
#[verifier::external_body]
pub(crate) fn map_len(d: &Durable) -> (n: u64)
    ensures
        n as nat == map_contents(*d).dom().len(),
{
    d.map.len()
}

/// The entry sequence of a byte-string map: every entry, keys strictly
/// ascending, values the stored bytes.
pub open spec fn entries_of(m: Map<u64, Seq<u8>>, es: Seq<(u64, Vec<u8>)>) -> bool {
    &&& forall|i: int, j: int| 0 <= i < j < es.len() ==> (#[trigger] es[i]).0 < (#[trigger] es[j]).0
    &&& forall|i: int|
        0 <= i < es.len() ==> m.contains_key((#[trigger] es[i]).0) && (es[i].1)@ == m[es[i].0]
    &&& forall|k: u64| #[trigger]
        m.contains_key(k) ==> exists|i: int| 0 <= i < es.len() && es[i].0 == k
}

/// Relies on ic_stable_structures::StableBTreeMap::iter: every entry of
/// the map, sorted by key in ascending order.
#[verifier::external_body]
pub(crate) fn map_entries(d: &Durable) -> (es: Vec<(u64, Vec<u8>)>)
    ensures
        entries_of(map_contents(*d), es@),
{
    d.map.iter().map(|entry| (*entry.key(), entry.value())).collect()
}

} // verus!
