use vstd::prelude::*;
use fxhash::FxHashMap;

verus! {

#[verifier::external_type_specification]
#[verifier::external_body]
pub struct ExFxHasher(fxhash::FxHasher);

#[verifier::external_type_specification]
#[verifier::external_body]
#[verifier::reject_recursive_types(H)]
pub struct ExBuildHasherDefault<H>(std::hash::BuildHasherDefault<H>);

/// The empty association from type identities to slot positions.
pub open spec fn empty_index() -> Map<u64, usize> {
    Map::empty()
}

/// Relies on `FxHashMap::default`: a fresh map is empty.
#[verifier::external_body]
pub(crate) fn index_new() -> (r: FxHashMap<u64, usize>)
    ensures
        r@ == empty_index(),
{
    FxHashMap::default()
}

/// Relies on `HashMap::insert` with fxhash's deterministic hasher: afterwards
/// the key maps to the value, and the prior value, if any, is returned.
#[verifier::external_body]
pub(crate) fn index_insert(m: &mut FxHashMap<u64, usize>, key: u64, value: usize) -> (r: Option<
    usize,
>)
    ensures
        final(m)@ == old(m)@.insert(key, value),
        r == if old(m)@.contains_key(key) {
            Some(old(m)@[key])
        } else {
            None::<usize>
        },
{
    m.insert(key, value)
}

/// Relies on `HashMap::get` with fxhash's deterministic hasher: returns the
/// value the key maps to, if any.
#[verifier::external_body]
pub(crate) fn index_get(m: &FxHashMap<u64, usize>, key: u64) -> (r: Option<usize>)
    ensures
        r == if m@.contains_key(key) {
            Some(m@[key])
        } else {
            None::<usize>
        },
{
    m.get(&key).copied()
}

/// Relies on `HashMap::remove` with fxhash's deterministic hasher: afterwards
/// the key maps to nothing, and the prior value, if any, is returned.
#[verifier::external_body]
pub(crate) fn index_remove(m: &mut FxHashMap<u64, usize>, key: u64) -> (r: Option<usize>)
    ensures
        final(m)@ == old(m)@.remove(key),
        r == if old(m)@.contains_key(key) {
            Some(old(m)@[key])
        } else {
            None::<usize>
        },
{
    m.remove(&key)
}

/// Relies on `HashMap::contains_key` with fxhash's deterministic hasher.
#[verifier::external_body]
pub(crate) fn index_contains(m: &FxHashMap<u64, usize>, key: u64) -> (r: bool)
    ensures
        r == m@.contains_key(key),
{
    m.contains_key(&key)
}

} // verus!
