//! The `fnv` hash map, keyed by grid and highlight ids, as the library uses it.
use std::hash::BuildHasherDefault;
use fnv::{FnvHashMap, FnvHasher};
use vstd::prelude::*;

verus! {

/// The FNV hasher of the `fnv` crate, carried opaquely.
#[verifier::external_type_specification]
#[verifier::external_body]
pub struct ExFnvHasher(FnvHasher);

/// std's builder of default-constructed hashers, carried opaquely.
#[verifier::external_type_specification]
#[verifier::external_body]
#[verifier::reject_recursive_types(H)]
pub struct ExBuildHasherDefault<H>(BuildHasherDefault<H>);

/// `FnvHashMap::default()` (std's `HashMap::default` with the FNV hasher):
/// claimed to give a map with no entries.
#[verifier::external_body]
pub(crate) fn fnv_map_new<V>() -> (fresh: FnvHashMap<u64, V>)
    ensures
        fresh@.dom() == Set::<u64>::empty(),
{
    FnvHashMap::default()
}

/// `HashMap::insert` on an FNV map: claimed to bind `k` to `v` and leave the
/// other keys as they were.
#[verifier::external_body]
pub(crate) fn fnv_map_insert<V>(m: &mut FnvHashMap<u64, V>, k: u64, v: V)
    ensures
        final(m)@ == old(m)@.insert(k, v),
{
    m.insert(k, v);
}

/// `HashMap::remove` on an FNV map: claimed to unbind `k` and hand back what
/// it was bound to, if anything.
#[verifier::external_body]
pub(crate) fn fnv_map_remove<V>(m: &mut FnvHashMap<u64, V>, k: u64) -> (r: Option<V>)
    ensures
        final(m)@ == old(m)@.remove(k),
        r is Some <==> old(m)@.contains_key(k),
        r matches Some(v) ==> v == old(m)@[k],
{
    m.remove(&k)
}

/// `HashMap::get` on an FNV map: claimed to give what `k` is bound to, if anything.
#[verifier::external_body]
pub(crate) fn fnv_map_get<V>(m: &FnvHashMap<u64, V>, k: u64) -> (r: Option<&V>)
    ensures
        r is Some <==> m@.contains_key(k),
        r matches Some(v) ==> *v == m@[k],
{
    m.get(&k)
}

} // verus!
