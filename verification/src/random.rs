use rand::Rng;
use vstd::prelude::*;

verus! {

/// Draws a random integer in `0..bound` with `rand::Rng::gen_range` on the
/// thread-local generator `rand::thread_rng()`. The contract claims only that the
/// value lies in that range; which value comes out is chance and is left open.
/// `gen_range` panics on an empty range, which the `requires` rules out.
#[verifier::external_body]
pub(crate) fn random_below(bound: u64) -> (r: u64)
    requires
        bound > 0,
    ensures
        r < bound,
{
    rand::thread_rng().gen_range(0..bound)
}

} // verus!
