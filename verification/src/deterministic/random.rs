//! Deterministic randomness.
//!
//! A small, fast generator that is seeded with a `u64`. Two generators made
//! from the same seed and asked the same questions in the same order give the
//! same answers; nothing else is known of an answer beyond its range.

use rand::rngs::SmallRng;
use rand::Rng;
use rand::RngCore;
use rand::SeedableRng;
use vstd::prelude::*;

verus! {

/// The number of equal steps into which `random_01` divides the unit
/// interval: its draws are multiples of `1 / UNIT_SCALE`.
pub const UNIT_SCALE: u32 = 0x80_0000;

/// `rand::rngs::SmallRng`: the generator, whose state is not modelled.
#[verifier::external_type_specification]
#[verifier::external_body]
pub struct ExSmallRng(SmallRng);

/// Calls `SeedableRng::seed_from_u64` for a `SmallRng`. The state of the
/// generator is not modelled, so nothing is claimed of the result.
#[verifier::external_body]
fn rng_from_seed(seed: u64) -> (rng: SmallRng) {
    SmallRng::seed_from_u64(seed)
}

/// Calls `Rng::gen_range` on the half-open range from `low` to `high`.
/// Trusted: the value lies in the range. The call panics on an empty range,
/// which the precondition leaves out.
#[verifier::external_body]
fn rng_range(rng: &mut SmallRng, low: u64, high: u64) -> (value: u64)
    requires
        low < high,
    ensures
        low <= value < high,
{
    rng.gen_range(low..high)
}

/// Calls `Rng::gen_ratio`. Trusted: a ratio of one is always `true` and a
/// ratio of zero always `false`; any other answer is open. The call panics on
/// a zero denominator or a numerator above it, which the precondition leaves
/// out.
#[verifier::external_body]
fn rng_ratio(rng: &mut SmallRng, numerator: u32, denominator: u32) -> (hit: bool)
    requires
        0 < denominator,
        numerator <= denominator,
    ensures
        numerator == denominator ==> hit,
        numerator == 0 ==> !hit,
{
    rng.gen_ratio(numerator, denominator)
}

/// Calls `RngCore::next_u32`. Any value may come back.
#[verifier::external_body]
fn rng_next_u32(rng: &mut SmallRng) -> (bits: u32) {
    rng.next_u32()
}

/// One answer of a random source.
#[derive(Debug, Clone, Copy, PartialEq, Eq, Structural)]
pub enum Draw {
    /// A number from a range, as `random_between` gives it.
    Between(u64),
    /// A boolean, as `random_boolean` gives it.
    Boolean(bool),
    /// A number from the unit interval, as `random_01` gives it.
    Unit(u32),
}

/// A source of randomness that can be seeded to become deterministic.
pub struct DeterministicRandom {
    inner: SmallRng,
    seed: Ghost<u64>,
    drawn: Ghost<Seq<Draw>>,
}

/// The number from the unit interval that the 32 random bits `bits` stand
/// for: their upper 23 bits, as the numerator of a fraction over
/// `UNIT_SCALE`.
pub fn unit_of_bits(bits: u32) -> (unit: u32)
    ensures
        unit == bits >> 9,
        unit < UNIT_SCALE,
{
    assert(bits >> 9 < 0x80_0000u32) by (bit_vector);
    bits >> 9
}

impl DeterministicRandom {
    /// The seed that the generator was made from.
    pub closed spec fn seed(&self) -> u64 {
        self.seed@
    }

    /// Every answer that the generator has given, oldest first.
    pub closed spec fn drawn(&self) -> Seq<Draw> {
        self.drawn@
    }

    /// How many times the generator has been asked for a value.
    pub open spec fn draws(&self) -> nat {
        self.drawn().len()
    }

    /// Create a deterministic random given a seed.
    pub fn new_with_seed(seed: u64) -> (random: DeterministicRandom)
        ensures
            random.seed() == seed,
            random.drawn() == Seq::<Draw>::empty(),
    {
        DeterministicRandom {
            inner: rng_from_seed(seed),
            seed: Ghost(seed),
            drawn: Ghost(Seq::empty()),
        }
    }

    /// Generate a random value in the half-open range from `low` to `high`.
    pub fn random_between(&mut self, low: u64, high: u64) -> (value: u64)
        requires
            low < high,
        ensures
            low <= value < high,
            final(self).seed() == old(self).seed(),
            final(self).drawn() == old(self).drawn().push(Draw::Between(value)),
    {
        let value: u64 = rng_range(&mut self.inner, low, high);
        self.drawn = Ghost(self.drawn@.push(Draw::Between(value)));
        value
    }

    /// Generate a random boolean that is `true` with a probability of
    /// `numerator / denominator`.
    pub fn random_boolean(&mut self, numerator: u32, denominator: u32) -> (hit: bool)
        requires
            0 < denominator,
            numerator <= denominator,
        ensures
            numerator == denominator ==> hit,
            numerator == 0 ==> !hit,
            final(self).seed() == old(self).seed(),
            final(self).drawn() == old(self).drawn().push(Draw::Boolean(hit)),
    {
        let hit: bool = rng_ratio(&mut self.inner, numerator, denominator);
        self.drawn = Ghost(self.drawn@.push(Draw::Boolean(hit)));
        hit
    }

    /// Generate a number between 0 and 1, one excluded: the result `unit`
    /// stands for the fraction `unit / UNIT_SCALE`.
    pub fn random_01(&mut self) -> (unit: u32)
        ensures
            unit < UNIT_SCALE,
            final(self).seed() == old(self).seed(),
            final(self).drawn() == old(self).drawn().push(Draw::Unit(unit)),
    {
        let bits: u32 = rng_next_u32(&mut self.inner);
        let unit: u32 = unit_of_bits(bits);
        self.drawn = Ghost(self.drawn@.push(Draw::Unit(unit)));
        unit
    }
}

} // verus!
