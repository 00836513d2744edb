//! The source of randomness.

use rand::Rng;
use vstd::prelude::*;

verus! {

/// `rand::rngs::ThreadRng`, the handle to the calling thread's generator. Its
/// state is hidden: nothing is known of the numbers it will give.
#[verifier::external_type_specification]
#[verifier::external_body]
pub struct ExThreadRng(rand::rngs::ThreadRng);

/// `rand::thread_rng` hands out the calling thread's generator. Nothing is
/// claimed of it. It takes no argument; it panics only where the system cannot
/// seed the generator.
pub assume_specification[ rand::thread_rng ]() -> (rng: rand::rngs::ThreadRng);

/// Calls `rand::Rng::gen_range` on the half-open range from zero to `bound`.
/// The claim is the one its documentation makes: the value lies in the range.
/// Which value comes is left open. An empty range makes it panic, hence the
/// precondition.
#[verifier::external_body]
pub(crate) fn random_below(rng: &mut rand::rngs::ThreadRng, bound: usize) -> (value: usize)
    requires
        bound > 0,
    ensures
        value < bound,
{
    rng.gen_range(0..bound)
}

} // verus!
