//! Sources of uniform random numbers for the spawn scheduler.

use vstd::prelude::*;

verus! {

/// Relies on rand::random: a value drawn from the thread-local generator.
/// Nothing is known of which value comes back.
pub assume_specification<T>[ rand::random::<T> ]() -> (r: T)
    where
        rand::distributions::Standard: rand::distributions::Distribution<T>,
;

/// A source of uniformly distributed 64-bit values.
pub trait UniformSource {
    fn next_u64(&mut self) -> u64;
}

/// Draws from the process's thread-local generator.
pub struct ThreadRandom {}

impl ThreadRandom {
    pub fn new() -> ThreadRandom {
        ThreadRandom {  }
    }
}

impl UniformSource for ThreadRandom {
    fn next_u64(&mut self) -> u64 {
        rand::random::<u64>()
    }
}

#[verifier::external_type_specification]
#[verifier::external_body]
pub struct ExStdRng(rand::rngs::StdRng);

/// Relies on rand's `SeedableRng::seed_from_u64` for `StdRng`: a generator
/// built from the seed. Nothing is claimed of the stream it yields.
#[verifier::external_body]
fn std_rng_from_seed(seed: u64) -> rand::rngs::StdRng {
    <rand::rngs::StdRng as rand::SeedableRng>::seed_from_u64(seed)
}

/// Relies on rand's `Rng::gen` for `StdRng`: the next value of the stream.
/// Nothing is claimed of which value comes back.
#[verifier::external_body]
fn std_rng_next(rng: &mut rand::rngs::StdRng) -> u64 {
    rand::Rng::gen::<u64>(rng)
}

/// A seedable generator, so that a run can be replayed: two sources made
/// from one seed yield the same values.
pub struct SeededRandom {
    rng: rand::rngs::StdRng,
}

impl SeededRandom {
    pub fn new(seed: u64) -> SeededRandom {
        SeededRandom { rng: std_rng_from_seed(seed) }
    }
}

impl UniformSource for SeededRandom {
    fn next_u64(&mut self) -> u64 {
        std_rng_next(&mut self.rng)
    }
}

} // verus!
