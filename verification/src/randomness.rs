//! The random index draw for event generation, reached through `rand`.
//! A draw is an arbitrary value within its range: nothing more is assumed
//! of it, and everything downstream is verified for every possible draw.

use vstd::prelude::*;

verus! {

#[verifier::external_type_specification]
#[verifier::external_body]
pub struct ExThreadRng(rand::rngs::ThreadRng);

/// Relies on `rand::rng`: a handle to the thread-local generator.
#[verifier::external_body]
pub fn fresh_rng() -> rand::rngs::ThreadRng {
    rand::rng()
}

/// Relies on `rand::RngExt::random_range`: a uniform draw from `0..n`,
/// which always lies below `n`. The call panics on an empty range, so `n`
/// must be positive.
#[verifier::external_body]
pub fn draw_below(rng: &mut rand::rngs::ThreadRng, n: usize) -> (r: usize)
    requires
        n >= 1,
    ensures
        r < n,
{
    rand::RngExt::random_range(rng, 0..n)
}

} // verus!
