//! The one source of chance of the engine.

use rand::Rng;
use vstd::prelude::*;

verus! {

/// An index below `bound`, drawn uniformly from the generator of the running
/// thread.
///
/// Trusted: the body calls `rand::Rng::gen_range` on `rand::thread_rng()`
/// with the range `0..bound`. The contract claims only that the result lies in
/// that range, which holds of every draw; it says nothing of which index
/// comes. `gen_range` panics on an empty range, so `bound` must be positive.
/// The generator is seeded by the system when a thread first asks for it.
#[verifier::external_body]
pub(crate) fn random_below(bound: usize) -> (r: usize)
    requires
        bound > 0,
    ensures
        r < bound,
{
    rand::thread_rng().gen_range(0..bound)
}

} // verus!
