//! Per-agent randomness: an explicitly seeded generator from the `rand`
//! crate, so that runs are reproducible, behind trusted declarations.
//!
//! Nothing is promised about which values come out, only their range: the
//! verified logic holds for every draw.

use vstd::prelude::*;
use rand::Rng;
use rand::SeedableRng;

verus! {

#[verifier::external_type_specification]
#[verifier::external_body]
pub struct ExStdRng(rand::rngs::StdRng);

/// Relies on rand's SeedableRng::seed_from_u64: a generator built
/// deterministically from the seed. Nothing is stated of its stream.
#[verifier::external_body]
pub fn rng_from_seed(seed: u64) -> rand::rngs::StdRng {
    rand::rngs::StdRng::seed_from_u64(seed)
}

/// Relies on rand's Rng::gen_range over `0..n`: a uniformly drawn value below
/// `n`. The range is non-empty, so the call cannot panic; only the bound on
/// the result is stated.
#[verifier::external_body]
pub fn rng_below(rng: &mut rand::rngs::StdRng, n: u64) -> (r: u64)
    requires
        n >= 1,
    ensures
        r < n,
{
    rng.gen_range(0..n)
}

} // verus!
