//! The hash maps that the bookkeeping is kept in.
//!
//! The maps are `rustc_hash::FxHashMap`s: the standard library's hash map
//! with the deterministic Fx hasher in place of the seeded default. Nothing
//! here is proved. Each function below makes one call on such a map, and its
//! contract says what the standard library documents for that call, given a
//! hasher that sends equal keys to equal hashes.

use vstd::prelude::*;
use rustc_hash::FxHashMap;

verus! {

/// `rustc_hash::FxHasher`, the state of the Fx hash function.
#[verifier::external_type_specification]
#[verifier::external_body]
pub struct ExFxHasher(rustc_hash::FxHasher);

/// `core::hash::BuildHasherDefault`, which makes a hasher by `Default`.
#[verifier::external_type_specification]
#[verifier::external_body]
#[verifier::reject_recursive_types(H)]
pub struct ExBuildHasherDefault<H>(core::hash::BuildHasherDefault<H>);

/// A map keyed by numbers: inodes or handle identifiers.
pub type NumberMap<V> = FxHashMap<u64, V>;

/// A map from byte strings, paths or project names, to numbers.
pub type BytesMap = FxHashMap<Vec<u8>, u64>;

/// What a map from byte strings to numbers holds: for each key, taken as
/// its bytes, the number stored under it.
pub uninterp spec fn numbers_by_bytes(map: BytesMap) -> Map<Seq<u8>, u64>;

/// `FxHashMap::default`: a map that holds nothing.
#[verifier::external_body]
pub(crate) fn fx_new<V>() -> (table: NumberMap<V>)
    ensures
        table@.dom() == Set::<u64>::empty(),
{
    FxHashMap::default()
}

/// `HashMap::get` on a map keyed by numbers: the value stored under `key`,
/// if there is one.
#[verifier::external_body]
pub(crate) fn fx_get<V>(map: &NumberMap<V>, key: u64) -> (value: Option<&V>)
    ensures
        value == (if map@.contains_key(key) {
            Some(&map@[key])
        } else {
            None
        }),
{
    map.get(&key)
}

/// `HashMap::insert` on a map keyed by numbers: stores `value` under `key`
/// and returns what was stored there before.
#[verifier::external_body]
pub(crate) fn fx_insert<V>(map: &mut NumberMap<V>, key: u64, value: V) -> (before: Option<V>)
    ensures
        final(map)@ == old(map)@.insert(key, value),
        before == (if old(map)@.contains_key(key) {
            Some(old(map)@[key])
        } else {
            None
        }),
{
    map.insert(key, value)
}

/// `HashMap::remove` on a map keyed by numbers: drops the entry of `key`
/// and returns what was stored there.
#[verifier::external_body]
pub(crate) fn fx_remove<V>(map: &mut NumberMap<V>, key: u64) -> (before: Option<V>)
    ensures
        final(map)@ == old(map)@.remove(key),
        before == (if old(map)@.contains_key(key) {
            Some(old(map)@[key])
        } else {
            None
        }),
{
    map.remove(&key)
}

/// `HashMap::len` on a map keyed by numbers: the number of entries.
#[verifier::external_body]
pub(crate) fn fx_len<V>(map: &NumberMap<V>) -> (entries: usize)
    ensures
        entries == map@.dom().len(),
{
    map.len()
}

/// `FxHashMap::default`: a map from byte strings that holds nothing.
#[verifier::external_body]
pub(crate) fn fx_bytes_new() -> (table: BytesMap)
    ensures
        numbers_by_bytes(table).dom() == Set::<Seq<u8>>::empty(),
{
    FxHashMap::default()
}

/// `HashMap::get` on a map from byte strings: the number stored under the
/// bytes of `key`, if there is one.
#[verifier::external_body]
pub(crate) fn fx_bytes_get(map: &BytesMap, key: &Vec<u8>) -> (value: Option<u64>)
    ensures
        value == (if numbers_by_bytes(*map).contains_key(key@) {
            Some(numbers_by_bytes(*map)[key@])
        } else {
            None
        }),
{
    map.get(key).copied()
}

/// `HashMap::insert` on a map from byte strings: stores `value` under the
/// bytes of `key` and returns what was stored there before.
#[verifier::external_body]
pub(crate) fn fx_bytes_insert(map: &mut BytesMap, key: Vec<u8>, value: u64) -> (before:
    Option<u64>)
    ensures
        numbers_by_bytes(*final(map)) == numbers_by_bytes(*old(map)).insert(key@, value),
        before == (if numbers_by_bytes(*old(map)).contains_key(key@) {
            Some(numbers_by_bytes(*old(map))[key@])
        } else {
            None
        }),
{
    map.insert(key, value)
}

/// `HashMap::remove` on a map from byte strings: drops the entry of the
/// bytes of `key` and returns what was stored there.
#[verifier::external_body]
pub(crate) fn fx_bytes_remove(map: &mut BytesMap, key: &Vec<u8>) -> (before: Option<
    u64,
>)
    ensures
        numbers_by_bytes(*final(map)) == numbers_by_bytes(*old(map)).remove(key@),
        before == (if numbers_by_bytes(*old(map)).contains_key(key@) {
            Some(numbers_by_bytes(*old(map))[key@])
        } else {
            None
        }),
{
    map.remove(key)
}

} // verus!
