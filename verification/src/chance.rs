//! Random numbers, drawn from the `rand` crate's thread-local generator.
//!
//! Nothing here is proved: each item states what `rand` is taken to do.

use rand::Rng;
use vstd::prelude::*;

verus! {

/// `rand::rngs::ThreadRng`, the handle to the thread-local generator. The
/// verifier sees nothing inside it.
#[verifier::external_type_specification]
#[verifier::external_body]
pub struct ExThreadRng(rand::rngs::ThreadRng);

/// `rand::thread_rng` hands out the calling thread's generator. Nothing is
/// claimed of it. On first use in a thread it seeds itself from the
/// operating system, and panics if the system cannot supply a seed.
pub assume_specification[ rand::thread_rng ]() -> (rng: rand::rngs::ThreadRng);

/// `Rng::gen_range` on the half-open range `0..bound`. The contract claims
/// only what holds of every draw: the number lies in the range. An empty
/// range makes `gen_range` panic, so `bound` must be positive.
#[verifier::external_body]
pub(crate) fn uniform_below(rng: &mut rand::rngs::ThreadRng, bound: usize) -> (n: usize)
    requires
        0 < bound,
    ensures
        n < bound,
{
    rng.gen_range(0..bound)
}

} // verus!
