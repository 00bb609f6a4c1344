//! The one source of chance in the library.

use rand::Rng;
use vstd::prelude::*;

verus! {

/// Draws an index from `0..n` with `rand::Rng::gen_range` on the generator
/// that `rand::thread_rng` hands out. Trusted: the value lies in the range;
/// nothing is claimed about which value comes back, and two calls may
/// differ. `gen_range` panics on an empty range, which `requires` excludes;
/// the generator itself gives up only where the system has no randomness
/// to seed it with.
#[verifier::external_body]
pub(crate) fn random_below(n: usize) -> (i: usize)
    requires
        n > 0,
    ensures
        i < n,
{
    rand::thread_rng().gen_range(0..n)
}

} // verus!
