//! Randomness for spawning tiles, drawn from the thread-local generator.

use rand::Rng;
use vstd::prelude::*;

verus! {

/// Relies on rand's `Rng::gen_range`: the result is drawn from the range
/// `0..n`, which is non-empty because `n > 0` (an empty range would panic).
/// Nothing is promised about which value comes back.
#[verifier::external_body]
pub(crate) fn random_below(n: usize) -> (r: usize)
    requires
        0 < n,
    ensures
        r < n,
{
    rand::thread_rng().gen_range(0..n)
}

/// Relies on rand's `Rng::gen::<bool>`, the `Standard` distribution on
/// `bool`: each call returns one of the two values, and nothing is promised
/// about which.
#[verifier::external_body]
pub(crate) fn random_bool() -> bool {
    rand::thread_rng().gen::<bool>()
}

} // verus!
