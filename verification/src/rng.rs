//! Trusted boundary to the process random number generator.
//!
//! Every game rule that consumes randomness takes the drawn value from one of
//! these wrappers; the contracts state only what holds of every possible
//! outcome (membership in the requested range, or permutation of the input),
//! never which outcome is drawn.
use vstd::prelude::*;

verus! {

/// Relies on rand::Rng::gen_range over an inclusive u32 range: the result
/// lies within the range; the call panics only on an empty range, which the
/// precondition rules out.
#[verifier::external_body]
pub(crate) fn roll_u32(lo: u32, hi: u32) -> (r: u32)
    requires
        lo <= hi,
    ensures
        lo <= r <= hi,
{
    rand::Rng::gen_range(&mut rand::thread_rng(), lo..=hi)
}

/// Relies on rand::Rng::gen_range over an inclusive u64 range: the result
/// lies within the range; the call panics only on an empty range, which the
/// precondition rules out.
#[verifier::external_body]
pub(crate) fn roll_u64(lo: u64, hi: u64) -> (r: u64)
    requires
        lo <= hi,
    ensures
        lo <= r <= hi,
{
    rand::Rng::gen_range(&mut rand::thread_rng(), lo..=hi)
}

/// Relies on rand::Rng::gen_range over a half-open usize range starting at
/// zero: the result is a valid index below the bound; the call panics only on
/// an empty range, which the precondition rules out.
#[verifier::external_body]
pub(crate) fn roll_index(bound: usize) -> (r: usize)
    requires
        bound > 0,
    ensures
        r < bound,
{
    rand::Rng::gen_range(&mut rand::thread_rng(), 0..bound)
}

/// Relies on rand::seq::SliceRandom::shuffle: a Fisher-Yates pass that
/// permutes the slice in place, so the new contents are a rearrangement of
/// the old and nothing is added or dropped.
#[verifier::external_body]
pub(crate) fn shuffle<T>(v: &mut Vec<T>)
    ensures
        final(v)@.len() == old(v)@.len(),
        final(v)@.to_multiset() == old(v)@.to_multiset(),
        forall|i: int| 0 <= i < final(v)@.len() ==> old(v)@.contains(final(v)@[i]),
{
    rand::seq::SliceRandom::shuffle(v.as_mut_slice(), &mut rand::thread_rng());
}

} // verus!
