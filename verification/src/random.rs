//! Sources of randomness for identifier generation.
//!
//! The generator draws indexes from an injected [`RandomSource`] rather than
//! a fixed global, so callers may supply a seeded source for reproducible
//! runs. [`ThreadRandom`] is the default source, backed by the `rand` crate's
//! thread-local generator.

use vstd::prelude::*;

verus! {

/// A capability that hands out one index at a time.
///
/// `sample(bound)` draws from `0 .. bound`; a well-behaved source draws
/// uniformly, but only the range is a checked guarantee.
pub trait RandomSource {
    /// Draw one value below `bound`.
    fn sample(&mut self, bound: usize) -> (r: usize)
        requires
            bound >= 1,
        ensures
            r < bound,
    ;
}

#[verifier::external_type_specification]
#[verifier::external_body]
pub struct ExThreadRng(rand::rngs::ThreadRng);

/// The default source: the `rand` crate's thread-local generator,
/// seeded by the operating system.
pub struct ThreadRandom {
    rng: rand::rngs::ThreadRng,
}

impl ThreadRandom {
    /// Relies on `rand::thread_rng`: a handle to the lazily seeded,
    /// thread-local, cryptographically secure generator. If the operating
    /// system's entropy source is unavailable, the generator aborts loudly,
    /// which is the intended treatment of that unrecoverable condition.
    #[verifier::external_body]
    pub fn new() -> (t: ThreadRandom) {
        ThreadRandom { rng: rand::thread_rng() }
    }

    /// Relies on `rand::Rng::gen_range`: a uniform sample from the given
    /// range. It panics only on an empty range, which the precondition
    /// rules out.
    #[verifier::external_body]
    fn gen_index(&mut self, bound: usize) -> (r: usize)
        requires
            bound >= 1,
        ensures
            r < bound,
    {
        rand::Rng::gen_range(&mut self.rng, 0..bound)
    }
}

impl RandomSource for ThreadRandom {
    fn sample(&mut self, bound: usize) -> (r: usize) {
        self.gen_index(bound)
    }
}

/// A deterministic source for reproducible runs: a 64-bit linear
/// congruential generator. Not cryptographic; meant for tests and replay.
pub struct SeededRandom {
    state: u64,
}

impl SeededRandom {
    /// A source whose whole future output is fixed by `seed`.
    pub fn from_seed(seed: u64) -> (s: SeededRandom) {
        SeededRandom { state: seed }
    }
}

impl RandomSource for SeededRandom {
    fn sample(&mut self, bound: usize) -> (r: usize) {
        let next = self.state.wrapping_mul(6364136223846793005).wrapping_add(
            1442695040888963407,
        );
        self.state = next;
        let x = (next >> 33) as usize;
        x % bound
    }
}

} // verus!
