//! The hash indexes that the stores are built on: `ahash::AHashMap`s from `u64`
//! keys and from names to slot numbers, reached only through the functions
//! below. What they say of the maps is taken from the maps' documentation, not
//! proved.

use vstd::prelude::*;

verus! {

/// `ahash::AHashMap`, as a type whose inside is not looked into.
#[verifier::external_type_specification]
#[verifier::external_body]
#[verifier::reject_recursive_types(K)]
#[verifier::reject_recursive_types(V)]
#[verifier::reject_recursive_types(S)]
pub struct ExAHashMap<K, V, S>(ahash::AHashMap<K, V, S>);

/// `ahash::RandomState`, the hasher state of the maps.
#[verifier::external_type_specification]
#[verifier::external_body]
pub struct ExRandomState(ahash::RandomState);

/// The key/slot pairs that a key index holds.
pub uninterp spec fn key_index_entries(index: ahash::AHashMap<u64, usize>) -> Map<u64, usize>;

/// `ahash::AHashMap::new`: a map without entries.
#[verifier::external_body]
pub(crate) fn key_index_new() -> (index: ahash::AHashMap<u64, usize>)
    ensures
        key_index_entries(index) == (Map::<u64, usize>::empty()),
{
    ahash::AHashMap::new()
}

/// `ahash::AHashMap::get`: the slot stored under `key`, if there is one. The map
/// is left as it was.
#[verifier::external_body]
pub(crate) fn key_index_get(index: &ahash::AHashMap<u64, usize>, key: u64) -> (slot: Option<usize>)
    ensures
        slot == (if key_index_entries(*index).contains_key(key) {
            Some(key_index_entries(*index)[key])
        } else {
            None
        }),
{
    index.get(&key).copied()
}

/// `ahash::AHashMap::insert`: afterwards `key` maps to `slot` and every other key
/// is as before; the slot that `key` mapped to before is returned.
#[verifier::external_body]
pub(crate) fn key_index_insert(index: &mut ahash::AHashMap<u64, usize>, key: u64, slot: usize) -> (previous: Option<usize>)
    ensures
        key_index_entries(*final(index)) == key_index_entries(*old(index)).insert(key, slot),
        previous == (if key_index_entries(*old(index)).contains_key(key) {
            Some(key_index_entries(*old(index))[key])
        } else {
            None
        }),
{
    index.insert(key, slot)
}

/// `ahash::AHashMap::remove`: afterwards `key` is absent and every other key is
/// as before; the slot that `key` mapped to is returned.
#[verifier::external_body]
pub(crate) fn key_index_remove(index: &mut ahash::AHashMap<u64, usize>, key: u64) -> (previous: Option<usize>)
    ensures
        key_index_entries(*final(index)) == key_index_entries(*old(index)).remove(key),
        previous == (if key_index_entries(*old(index)).contains_key(key) {
            Some(key_index_entries(*old(index))[key])
        } else {
            None
        }),
{
    index.remove(&key)
}

} // verus!

verus! {

/// The name/slot pairs that a name index holds, each name as its characters.
pub uninterp spec fn name_index_entries(index: ahash::AHashMap<String, usize>) -> Map<Seq<char>, usize>;

/// `ahash::AHashMap::new`: a map without entries.
#[verifier::external_body]
pub(crate) fn name_index_new() -> (index: ahash::AHashMap<String, usize>)
    ensures
        name_index_entries(index) == (Map::<Seq<char>, usize>::empty()),
{
    ahash::AHashMap::new()
}

/// `ahash::AHashMap::get`: the slot stored under `name`, if there is one. The map
/// is left as it was.
#[verifier::external_body]
pub(crate) fn name_index_get(index: &ahash::AHashMap<String, usize>, name: &str) -> (slot: Option<usize>)
    ensures
        slot == (if name_index_entries(*index).contains_key(name@) {
            Some(name_index_entries(*index)[name@])
        } else {
            None
        }),
{
    index.get(name).copied()
}

/// `ahash::AHashMap::insert`: afterwards `name` maps to `slot` and every other
/// name is as before; the slot that `name` mapped to before is returned.
#[verifier::external_body]
pub(crate) fn name_index_insert(index: &mut ahash::AHashMap<String, usize>, name: String, slot: usize) -> (previous: Option<usize>)
    ensures
        name_index_entries(*final(index)) == name_index_entries(*old(index)).insert(name@, slot),
        previous == (if name_index_entries(*old(index)).contains_key(name@) {
            Some(name_index_entries(*old(index))[name@])
        } else {
            None
        }),
{
    index.insert(name, slot)
}

} // verus!
