//! Random tie-breaking sources.
//!
//! Each per-vertex update task draws from its own thread-local generator, so
//! parallel tasks never share or synchronize on a random source. Nothing is
//! assumed about the values drawn beyond their range: every caller must be
//! correct for every outcome.

use vstd::prelude::*;

use rand::Rng;

verus! {

#[verifier::external_type_specification]
#[verifier::external_body]
pub struct ExThreadRng(rand::rngs::ThreadRng);

/// Relies on rand's `thread_rng`: a handle to this thread's generator.
/// Nothing is promised about the values it will produce.
#[verifier::external_body]
pub(crate) fn fresh_rng() -> rand::rngs::ThreadRng {
    rand::thread_rng()
}

/// Relies on rand's `Rng::gen_range` over `0 .. bound`: the sample lies in
/// that range, and the range is non-empty, so the call cannot panic. Which
/// value comes back is left open.
#[verifier::external_body]
pub(crate) fn pick_uniform(rng: &mut rand::rngs::ThreadRng, bound: usize) -> (r: usize)
    requires
        bound >= 1,
    ensures
        r < bound,
{
    rng.gen_range(0..bound)
}

} // verus!
