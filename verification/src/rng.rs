//! The library's two sources of randomness, taken from the rand crate.
//!
//! Nothing is assumed about which values come out, only about their range
//! (for index draws) or about the multiset of elements (for a shuffle), so
//! every caller is verified for every outcome.

use rand::seq::SliceRandom;
use rand::Rng;
use vstd::prelude::*;

verus! {

/// Relies on rand's `Rng::gen_range` over `0..n`: a draw below `n`.
/// The call panics on an empty range, so `n` must be positive.
#[verifier::external_body]
pub(crate) fn random_below(n: usize) -> (r: usize)
    requires
        n >= 1,
    ensures
        r < n,
{
    rand::thread_rng().gen_range(0..n)
}

/// Relies on rand's `SliceRandom::shuffle`: an in-place Fisher-Yates pass
/// built from element swaps, so the elements are rearranged and none is
/// added, dropped or changed.
#[verifier::external_body]
pub(crate) fn shuffle_vec(v: &mut Vec<usize>)
    ensures
        final(v)@.to_multiset() == old(v)@.to_multiset(),
{
    v.shuffle(&mut rand::thread_rng());
}

} // verus!
