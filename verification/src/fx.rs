//! Hash maps keyed by window identifiers, on top of `rustc_hash::FxHashMap`.
//!
//! The view of such a map is the `Map` of its entries. The order in which the table stores them
//! is never observed.

use rustc_hash::FxHashMap;
use vstd::prelude::*;

verus! {

/// `rustc_hash::FxBuildHasher`, the hasher that makes a standard hash map an `FxHashMap`.
#[verifier::external_type_specification]
#[verifier::external_body]
pub struct ExFxBuildHasher(rustc_hash::FxBuildHasher);

/// The value that a map has for a key, if any.
pub open spec fn lookup<V>(map: Map<u64, V>, key: u64) -> Option<V> {
    if map.contains_key(key) {
        Some(map[key])
    } else {
        None
    }
}

/// A new map, which has no entry.
pub(crate) fn new<V>() -> (map: FxHashMap<u64, V>)
    ensures
        map@ =~= Map::empty(),
{
    FxHashMap::default()
}

/// Calls `FxHashMap::insert`. The key is bound to the value, every other entry stays, and the value
/// that the key was bound to before, if any, is returned.
#[verifier::external_body]
pub(crate) fn insert<V>(map: &mut FxHashMap<u64, V>, key: u64, value: V) -> (previous: Option<V>)
    ensures
        final(map)@ == old(map)@.insert(key, value),
        previous == lookup(old(map)@, key),
{
    map.insert(key, value)
}

/// Calls `FxHashMap::remove`. The entry of the key leaves the map, every other entry stays, and the
/// value that the key was bound to, if any, is returned.
#[verifier::external_body]
pub(crate) fn remove<V>(map: &mut FxHashMap<u64, V>, key: u64) -> (value: Option<V>)
    ensures
        final(map)@ == old(map)@.remove(key),
        value == lookup(old(map)@, key),
{
    map.remove(&key)
}

/// Calls `FxHashMap::get` and copies what it finds: the value that the key is bound to, if any.
#[verifier::external_body]
pub(crate) fn get(map: &FxHashMap<u64, u64>, key: u64) -> (value: Option<u64>)
    ensures
        value == lookup(map@, key),
{
    map.get(&key).copied()
}

} // verus!
