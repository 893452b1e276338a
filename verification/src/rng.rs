//! A seeded random number generator scoped to one run, for deterministic simulation.
use vstd::prelude::*;

use rand::rngs::StdRng;
use rand::SeedableRng;

verus! {

#[verifier::external_type_specification]
#[verifier::external_body]
pub struct ExStdRng(StdRng);

/// `StdRng::seed_from_u64`. Nothing is claimed of the generator it returns.
#[verifier::external_body]
fn seeded(seed: u64) -> StdRng {
    StdRng::seed_from_u64(seed)
}

/// A generator seeded from the run's seed.
pub struct ScopedRng {
    rng: StdRng,
}

impl ScopedRng {
    /// The generator held.
    pub closed spec fn generator(&self) -> StdRng {
        self.rng
    }

    /// A generator seeded from `seed`.
    pub fn new(seed: u64) -> ScopedRng {
        ScopedRng { rng: seeded(seed) }
    }

    /// The underlying generator, lent out: what is drawn through it is
    /// drawn from the generator held.
    pub fn rng(&mut self) -> (r: &mut StdRng)
        ensures
            *r == old(self).generator(),
            final(self).generator() == *final(r),
    {
        &mut self.rng
    }
}

} // verus!
