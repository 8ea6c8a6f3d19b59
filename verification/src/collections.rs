//! Hash collections of the `fxhash` crate, as the mesher and the world use
//! them: keyed by tuples of integers, read and filled through the few
//! operations below. `FxHashMap` and `FxHashSet` are std's `HashMap` and
//! `HashSet` with the hasher of `fxhash`, which hashes by a fixed rule and
//! keeps no state between hashers; the contracts below rest on that and on
//! std's `Hash` and `Eq` of integer tuples.

use fxhash::{FxHashMap, FxHashSet};
use vstd::prelude::*;

verus! {

#[verifier::external_type_specification]
#[verifier::external_body]
pub struct ExFxHasher(fxhash::FxHasher);

#[verifier::external_type_specification]
#[verifier::external_body]
#[verifier::reject_recursive_types(H)]
pub struct ExBuildHasherDefault<H>(std::hash::BuildHasherDefault<H>);

/// The key types of this crate's hash collections: tuples of integers,
/// whose `Hash` and `Eq` are std's own.
pub trait GridKey: core::hash::Hash + Eq {

}

impl GridKey for (usize, usize) {

}

impl GridKey for (i64, i64, i64) {

}

/// `FxHashMap::default`: trusted to make a map that holds nothing.
#[verifier::external_body]
pub(crate) fn fx_map_new<K: GridKey, V>() -> (map: FxHashMap<K, V>)
    ensures
        (map@ == Map::<K, V>::empty()),
{
    FxHashMap::default()
}

/// `HashMap::insert` on an `FxHashMap`: trusted to put `value` under `key`,
/// in place of what was there, and to leave every other key alone.
#[verifier::external_body]
pub(crate) fn fx_map_insert<K: GridKey, V>(m: &mut FxHashMap<K, V>, key: K, value: V)
    ensures
        final(m)@ == old(m)@.insert(key, value),
{
    m.insert(key, value);
}

/// `HashMap::get` on an `FxHashMap`: trusted to return a copy of the value
/// under `key`, or nothing if the map does not hold the key.
#[verifier::external_body]
pub(crate) fn fx_map_get<K: GridKey, V: Copy>(m: &FxHashMap<K, V>, key: K) -> (r: Option<V>)
    ensures
        r == (if m@.dom().contains(key) {
            Some(m@[key])
        } else {
            None
        }),
{
    m.get(&key).copied()
}

/// `FxHashSet::default`: trusted to make a set that holds nothing.
#[verifier::external_body]
pub(crate) fn fx_set_new<K: GridKey>() -> (set: FxHashSet<K>)
    ensures
        set@ == Set::<K>::empty(),
{
    FxHashSet::default()
}

/// `HashSet::insert` on an `FxHashSet`: trusted to add `key` and to leave
/// every other key alone.
#[verifier::external_body]
pub(crate) fn fx_set_insert<K: GridKey>(s: &mut FxHashSet<K>, key: K)
    ensures
        final(s)@ == old(s)@.insert(key),
{
    s.insert(key);
}

/// `HashSet::contains` on an `FxHashSet`: trusted to say whether the set
/// holds `key`.
#[verifier::external_body]
pub(crate) fn fx_set_contains<K: GridKey>(s: &FxHashSet<K>, key: K) -> (r: bool)
    ensures
        r == s@.contains(key),
{
    s.contains(&key)
}

} // verus!
