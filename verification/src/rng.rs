//! Trusted boundary to the process-wide random source. Nothing here is
//! verified; each wrapper states only what holds of every possible outcome.

use vstd::prelude::*;

verus! {

/// Relies on fastrand::shuffle: it rearranges the slice in place by element
/// swaps, so the new contents are a permutation of the old and the length is
/// unchanged. It does not panic.
#[verifier::external_body]
pub(crate) fn shuffle(v: &mut Vec<String>)
    ensures
        final(v)@.len() == old(v)@.len(),
        final(v)@.to_multiset() == old(v)@.to_multiset(),
{
    fastrand::shuffle(v);
}

/// Relies on fastrand::usize over the range `..n`: the draw lies strictly
/// below `n`. It panics only on an empty range, which the precondition
/// excludes.
#[verifier::external_body]
pub(crate) fn random_index(n: usize) -> (r: usize)
    requires
        n > 0,
    ensures
        r < n,
{
    fastrand::usize(..n)
}

/// Relies on fastrand::u32 over the full range, which never panics. Nothing
/// can be promised of the value drawn.
#[verifier::external_body]
pub(crate) fn random_u32() -> u32 {
    fastrand::u32(..)
}

} // verus!
