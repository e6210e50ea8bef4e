use vstd::prelude::*;
use rand::seq::SliceRandom;
use rand::Rng;

verus! {

/// rand::rngs::ThreadRng, a handle to this thread's random generator, carried
/// through as an opaque value.
#[verifier::external_type_specification]
#[verifier::external_body]
pub struct ExThreadRng(rand::rngs::ThreadRng);

/// Relies on rand::thread_rng: a handle to this thread's random generator.
pub assume_specification[ rand::thread_rng ]() -> rand::rngs::ThreadRng;

/// Relies on rand::Rng::gen_range, which panics on an empty range and
/// otherwise returns a value of the range.
#[verifier::external_body]
pub(crate) fn below(rng: &mut rand::rngs::ThreadRng, n: usize) -> (r: usize)
    requires
        n > 0,
    ensures
        r < n,
{
    rng.gen_range(0..n)
}

/// Relies on rand::seq::SliceRandom::shuffle, which only swaps elements of the
/// slice, so the same items stay, in some order.
#[verifier::external_body]
pub(crate) fn shuffle<T>(items: &mut [T; 16], rng: &mut rand::rngs::ThreadRng)
    ensures
        final(items)@.to_multiset() == old(items)@.to_multiset(),
{
    items.shuffle(rng)
}

} // verus!
