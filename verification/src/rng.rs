//! Deterministic pseudo-random source.
//!
//! The simulation consumes randomness through an explicitly passed source so
//! that every run is a deterministic function of the seed. The generator is
//! a 64-bit xorshift; [`Rng::from_entropy`] seeds it from the operating
//! system's generator for production use.

use vstd::prelude::*;

verus! {

/// Denominator for uniform fraction draws: a draw `u` below this constant
/// stands for the real number `u / RAND_DENOM` in `[0, 1)`.
pub const RAND_DENOM: u64 = 1_000_000;

/// Replacement seed for the degenerate all-zero xorshift state.
pub const ZERO_SEED_REPLACEMENT: u64 = 0x9E3779B97F4A7C15;

/// One step of the 64-bit xorshift generator; the output is the new state.
pub open spec fn rng_next(s: u64) -> u64 {
    let a = s ^ (s << 13u64);
    let b = a ^ (a >> 7u64);
    b ^ (b << 17u64)
}

/// A deterministic pseudo-random source owned by the simulation.
pub struct Rng {
    state: u64,
}

impl View for Rng {
    type V = u64;

    closed spec fn view(&self) -> u64 {
        self.state
    }
}

/// Relies on rand::random: returns a value drawn from the operating system's
/// seeded generator; nothing can be promised of the value.
pub assume_specification<T>[ rand::random::<T> ]() -> (r: T)
    where
        rand::distributions::Standard: rand::distributions::Distribution<T>,
;

impl Rng {
    /// Builds a source from a caller-chosen seed; a zero seed is replaced so
    /// the xorshift state never sticks at zero.
    pub fn new(seed: u64) -> (r: Rng)
        ensures
            r@ == if seed == 0 {
                ZERO_SEED_REPLACEMENT
            } else {
                seed
            },
    {
        if seed == 0 {
            Rng { state: ZERO_SEED_REPLACEMENT }
        } else {
            Rng { state: seed }
        }
    }

    /// Builds a source seeded from the operating system's generator.
    pub fn from_entropy() -> (r: Rng)
        ensures
            r@ != 0,
    {
        let seed: u64 = rand::random::<u64>();
        Rng::new(seed)
    }

    /// Advances the generator once and returns the new state as the draw.
    pub fn next_u64(&mut self) -> (r: u64)
        ensures
            final(self)@ == rng_next(old(self)@),
            r == rng_next(old(self)@),
    {
        let mut s = self.state;
        s = s ^ (s << 13u64);
        s = s ^ (s >> 7u64);
        s = s ^ (s << 17u64);
        self.state = s;
        s
    }

    /// Draws a value uniformly below `n`.
    pub fn below(&mut self, n: u64) -> (r: u64)
        requires
            n > 0,
        ensures
            final(self)@ == rng_next(old(self)@),
            r == rng_next(old(self)@) % n,
            r < n,
    {
        let v = self.next_u64();
        v % n
    }

    /// Draws a uniform fraction numerator below [`RAND_DENOM`].
    pub fn fraction(&mut self) -> (r: u64)
        ensures
            final(self)@ == rng_next(old(self)@),
            r == rng_next(old(self)@) % RAND_DENOM,
            r < RAND_DENOM,
    {
        self.below(RAND_DENOM)
    }
}

} // verus!
