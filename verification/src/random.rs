//! Randomness, drawn through the `rand` crate.
use vstd::prelude::*;
use rand::Rng;

verus! {

/// A uniformly drawn index below `n` (`rand::thread_rng().gen_range(0..n)`).
///
/// Trusted: `gen_range` panics on an empty range, hence `n > 0`; its
/// documentation promises a value inside the range, which is all that is claimed.
#[verifier::external_body]
pub(crate) fn random_below(n: usize) -> (r: usize)
    requires
        n > 0,
    ensures
        r < n,
{
    rand::thread_rng().gen_range(0..n)
}

/// A random 32-bit value (`rand::random::<u32>()`); nothing is claimed of it.
#[verifier::external_body]
pub(crate) fn random_u32() -> u32 {
    rand::random::<u32>()
}

} // verus!
