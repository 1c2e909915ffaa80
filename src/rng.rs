use rand::rngs::SmallRng;
use rand::{Rng, SeedableRng};
use vstd::prelude::*;

verus! {

#[verifier::external_type_specification]
#[verifier::external_body]
pub struct ExSmallRng(SmallRng);

/// Relies on rand's `SeedableRng::seed_from_u64`: a generator seeded from `seed`.
#[verifier::external_body]
fn small_rng_from_seed(seed: u64) -> SmallRng {
    SmallRng::seed_from_u64(seed)
}

/// Relies on rand's `Rng::gen_range` on `0..bound`: a value below `bound`;
/// it panics only on an empty range.
#[verifier::external_body]
fn small_rng_below(rng: &mut SmallRng, bound: u64) -> (r: u64)
    requires
        bound > 0,
    ensures
        r < bound,
{
    rng.gen_range(0..bound)
}

/// The generator that the spawner draws from.
pub struct SpawnRng {
    rng: SmallRng,
}

impl SpawnRng {
    /// A spawner generator over `rng`.
    pub fn new(rng: SmallRng) -> (r: SpawnRng) {
        SpawnRng { rng }
    }

    /// A reproducible generator, seeded from `seed`.
    pub fn seeded(seed: u64) -> (r: SpawnRng) {
        SpawnRng { rng: small_rng_from_seed(seed) }
    }

    /// A value drawn from `0..bound`.
    pub fn draw(&mut self, bound: u64) -> (r: u64)
        requires
            bound > 0,
        ensures
            r < bound,
    {
        small_rng_below(&mut self.rng, bound)
    }
}

} // verus!
