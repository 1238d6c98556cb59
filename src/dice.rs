use vstd::prelude::*;
use rand::rngs::StdRng;
use rand::Rng;
use rand::SeedableRng;

verus! {

#[verifier::external_type_specification]
#[verifier::external_body]
pub struct ExStdRng(StdRng);

/// Relies on `rand::SeedableRng::seed_from_u64` for `StdRng`: a generator
/// whose draws depend on the seed alone.
#[verifier::external_body]
fn rng_from_seed(seed: u64) -> (r: StdRng) {
    StdRng::seed_from_u64(seed)
}

/// Relies on `rand::Rng::gen_range` for `i64`: a value in `[low, high)`;
/// it panics when `low >= high`, which `requires` leaves out.
#[verifier::external_body]
fn rng_range(rng: &mut StdRng, low: i64, high: i64) -> (r: i64)
    requires
        low < high,
    ensures
        low <= r < high,
{
    rng.gen_range(low, high)
}

/// The source of chance of the simulation: where new adversaries appear and
/// how far each one patrols.
pub struct Dice {
    rng: StdRng,
}

impl Dice {
    /// A source whose rolls are fixed by `seed`.
    pub fn seeded(seed: u64) -> (r: Dice) {
        Dice { rng: rng_from_seed(seed) }
    }

    /// A value in `[low, high)`.
    pub fn roll(&mut self, low: i64, high: i64) -> (r: i64)
        requires
            low < high,
        ensures
            low <= r < high,
    {
        rng_range(&mut self.rng, low, high)
    }
}

} // verus!
