//! The renderer's single source of randomness.

use vstd::prelude::*;

verus! {

/// Relies on `rand::Rng::gen_range` over `0..n` on the thread-local
/// generator: it returns a value of the half-open range, so strictly below
/// `n`; the range must be non-empty or the call panics.
#[verifier::external_body]
pub fn rand_below(n: u64) -> (r: u64)
    requires
        1 <= n,
    ensures
        r < n,
{
    rand::Rng::gen_range(&mut rand::thread_rng(), 0..n)
}

} // verus!
