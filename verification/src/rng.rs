//! The one source of randomness: a trusted wrapper around the `rand`
//! crate. Every caller states only what holds of each possible outcome.

use vstd::prelude::*;
use rand::Rng;

verus! {

/// Relies on `rand::thread_rng` and `rand::Rng::gen_range`: draws a
/// uniformly distributed value in `[0, n)`. `gen_range` panics on an empty
/// range, which the precondition rules out.
#[verifier::external_body]
pub(crate) fn random_below(n: usize) -> (r: usize)
    requires
        n > 0,
    ensures
        r < n,
{
    rand::thread_rng().gen_range(0..n)
}

} // verus!
