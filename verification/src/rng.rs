//! Random draws for the epsilon-greedy policy.
//!
//! The crate keeps one deterministic, seedable generator per agent, as the
//! resource model asks. Every draw goes through one of the trusted wrappers
//! below; their contracts state only the range of the result, never its
//! value, so everything proved downstream holds for every outcome.

use crate::fixed::{Fx, SCALE};
use vstd::prelude::*;

verus! {

#[verifier::external_type_specification]
#[verifier::external_body]
pub struct ExStdRng(rand::rngs::StdRng);

/// Relies on rand's `SeedableRng::seed_from_u64`: builds a deterministic
/// generator from a 64-bit seed.
#[verifier::external_body]
pub(crate) fn rng_from_seed(seed: u64) -> (r: rand::rngs::StdRng) {
    <rand::rngs::StdRng as rand::SeedableRng>::seed_from_u64(seed)
}

/// Relies on rand's `SeedableRng::from_entropy`: builds a generator seeded
/// from the operating system's entropy source. The call aborts if that
/// source fails — an environmental condition, independent of any input.
#[verifier::external_body]
pub(crate) fn rng_from_entropy() -> (r: rand::rngs::StdRng) {
    <rand::rngs::StdRng as rand::SeedableRng>::from_entropy()
}

/// Relies on rand's `Rng::gen_range` on `0..n`: returns a member of that
/// range, and panics only when the range is empty, which the precondition
/// rules out.
#[verifier::external_body]
pub(crate) fn rand_below(rng: &mut rand::rngs::StdRng, n: usize) -> (r: usize)
    requires
        n >= 1,
    ensures
        r < n,
{
    rand::Rng::gen_range(rng, 0..n)
}

/// Relies on rand's `Rng::gen_range` on `0..SCALE`: a draw from the unit
/// interval `[0, 1)` in fixed point.
#[verifier::external_body]
pub(crate) fn rand_unit(rng: &mut rand::rngs::StdRng) -> (r: Fx)
    ensures
        0 <= r@ < SCALE as int,
{
    Fx { bits: rand::Rng::gen_range(rng, 0..SCALE) }
}

} // verus!
