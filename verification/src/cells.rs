//! Grid-cell-keyed hash maps with rustc-hash's `FxBuildHasher`.
//!
//! vstd's model of `HashMap` covers only hashers and keys that it knows to be
//! deterministic, so the calls that the game makes on its Fx-hashed maps
//! are given their contracts here, over the map's view.
use rustc_hash::{FxBuildHasher, FxHashMap};

use vstd::prelude::*;

verus! {

/// The hash builder of rustc-hash, which the grid maps use.
#[verifier::external_type_specification]
#[verifier::external_body]
pub struct ExFxBuildHasher(FxBuildHasher);

/// Calls `HashMap::get` on an Fx-hashed map keyed by grid cells.
/// Claims: the result is the value stored under the cell, or `None` when the
/// cell is not a key. `FxHasher` hashes a cell the same way every time, so the
/// map behaves as the map model says.
#[verifier::external_body]
pub(crate) fn fx_get<'a, V>(m: &'a FxHashMap<(usize, usize), V>, k: &(usize, usize)) -> (r:
    Option<&'a V>)
    ensures
        r == (if m@.contains_key(*k) {
            Some(&m@[*k])
        } else {
            None
        }),
{
    m.get(k)
}

/// Calls `HashMap::insert` on an Fx-hashed map keyed by grid cells.
/// Claims: afterwards the cell maps to `v` and every other key is unchanged.
#[verifier::external_body]
pub(crate) fn fx_insert<V>(m: &mut FxHashMap<(usize, usize), V>, k: (usize, usize), v: V)
    ensures
        final(m)@ == old(m)@.insert(k, v),
{
    m.insert(k, v);
}

/// Calls `HashMap::remove` on an Fx-hashed map keyed by grid cells.
/// Claims: the cell is no longer a key, and the result is what it held.
#[verifier::external_body]
pub(crate) fn fx_remove<V>(m: &mut FxHashMap<(usize, usize), V>, k: &(usize, usize)) -> (r:
    Option<V>)
    ensures
        final(m)@ == old(m)@.remove(*k),
        r == (if old(m)@.contains_key(*k) {
            Some(old(m)@[*k])
        } else {
            None
        }),
{
    m.remove(k)
}

} // verus!
