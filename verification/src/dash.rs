//! The concurrent map that backs the engine's tables, and what is taken on
//! trust about it.

use dashmap::DashMap;
use fxhash::FxBuildHasher;
use fxhash::FxHasher;
use std::hash::BuildHasherDefault;
use vstd::prelude::*;

verus! {

/// `fxhash::FxHasher`: the hasher of the tables. Nothing inside it is
/// visible here.
#[verifier::external_type_specification]
#[verifier::external_body]
pub struct ExFxHasher(FxHasher);

/// `std::hash::BuildHasherDefault`, of which `fxhash::FxBuildHasher` is an
/// instance. Nothing inside it is visible here.
#[verifier::external_type_specification]
#[verifier::external_body]
#[verifier::reject_recursive_types(H)]
pub struct ExBuildHasherDefault<H>(BuildHasherDefault<H>);

/// `dashmap::DashMap`. Nothing inside it is visible here: what a table
/// holds is spoken of through [`pairs`].
#[verifier::external_type_specification]
#[verifier::external_body]
#[verifier::reject_recursive_types(K)]
#[verifier::reject_recursive_types(V)]
#[verifier::reject_recursive_types(S)]
pub struct ExDashMap<K, V, S>(DashMap<K, V, S>);

/// The key-value pairs that a table holds. The engine changes a table only
/// through an exclusive reference, so between two calls the pairs stay what
/// the last call left.
pub uninterp spec fn pairs(table: DashMap<u64, u64, FxBuildHasher>) -> Map<u64, u64>;

/// `DashMap::with_hasher`, called with a default `FxBuildHasher`: the new
/// table holds no pair.
#[verifier::external_body]
pub(crate) fn table_new() -> (fresh: DashMap<u64, u64, FxBuildHasher>)
    ensures
        pairs(fresh).dom() == Set::<u64>::empty(),
{
    DashMap::with_hasher(FxBuildHasher::default())
}

/// `DashMap::get`: the value stored under `key`, copied out of the guard, or
/// `None` where the table has no such key.
#[verifier::external_body]
pub(crate) fn table_get(table: &DashMap<u64, u64, FxBuildHasher>, key: u64) -> (value: Option<u64>)
    ensures
        value == (if pairs(*table).dom().contains(key) {
            Some(pairs(*table)[key])
        } else {
            None
        }),
{
    match table.get(&key) {
        Some(guard) => Some(*guard),
        None => None,
    }
}

/// `DashMap::insert`: afterwards `key` maps to `value` and every other key is
/// as before; the value that `key` had before is returned.
#[verifier::external_body]
pub(crate) fn table_insert(
    table: &mut DashMap<u64, u64, FxBuildHasher>,
    key: u64,
    value: u64,
) -> (previous: Option<u64>)
    ensures
        pairs(*final(table)) == pairs(*old(table)).insert(key, value),
        previous == (if pairs(*old(table)).dom().contains(key) {
            Some(pairs(*old(table))[key])
        } else {
            None
        }),
{
    table.insert(key, value)
}

/// `DashMap::remove`: afterwards the table has no pair under `key` and every
/// other key is as before; the pair that was removed is returned.
#[verifier::external_body]
pub(crate) fn table_remove(table: &mut DashMap<u64, u64, FxBuildHasher>, key: u64) -> (removed:
    Option<(u64, u64)>)
    ensures
        pairs(*final(table)) == pairs(*old(table)).remove(key),
        removed == (if pairs(*old(table)).dom().contains(key) {
            Some((key, pairs(*old(table))[key]))
        } else {
            None
        }),
{
    table.remove(&key)
}

} // verus!
