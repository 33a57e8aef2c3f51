//! The one source of chance: every random choice of the library is a
//! position drawn here.

use rand::Rng;
use vstd::prelude::*;

verus! {

/// Draws a position below `bound` with `rand::Rng::gen_range` over the
/// half-open range `0..bound`, on `rand::thread_rng()`.
///
/// Trusted: the contract claims only that the position lies in the range.
/// `gen_range` panics on an empty range, so `bound` must be positive.
#[verifier::external_body]
pub(crate) fn random_below(bound: usize) -> (index: usize)
    requires
        bound > 0,
    ensures
        index < bound,
{
    rand::thread_rng().gen_range(0..bound)
}

} // verus!
