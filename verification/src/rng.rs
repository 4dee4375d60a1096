//! The injectable random source behind the spawner: a `rand` generator seeded
//! once at process start. Both entry points below are trusted; everything that
//! depends on the drawn numbers takes them as plain values and is verified for
//! every value the contracts admit.

use vstd::prelude::*;

verus! {

/// `rand::rngs::StdRng` carried opaquely through the simulation state.
#[verifier::external_type_specification]
#[verifier::external_body]
pub struct ExStdRng(rand::rngs::StdRng);

/// Relies on `rand::SeedableRng::seed_from_u64`: builds a generator whose
/// draws are determined by the given seed.
#[verifier::external_body]
pub fn rng_from_seed(seed: u64) -> rand::rngs::StdRng {
    rand::SeedableRng::seed_from_u64(seed)
}

/// Relies on `rand::Rng::gen_range` over `lo..=hi`: the sample lies between
/// the bounds. The range must not be empty, since `gen_range` panics on one.
/// Nothing more is promised: to the verifier every draw is an arbitrary value
/// in the range.
#[verifier::external_body]
pub fn rand_range_i64(rng: &mut rand::rngs::StdRng, lo: i64, hi: i64) -> (r: i64)
    requires
        lo <= hi,
    ensures
        lo <= r <= hi,
{
    rand::Rng::gen_range(rng, lo..=hi)
}

} // verus!
