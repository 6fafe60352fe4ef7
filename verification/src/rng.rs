//! Deterministic pseudo-random numbers for the simulation.
//!
//! A single 64-bit word of state advances by a multiplicative mixing step
//! on every draw. The generator is fast and deterministic, not
//! cryptographic; the caller seeds it once (from OS entropy, or from a
//! fixed fallback when no entropy is available).

use vstd::prelude::*;

verus! {

/// The state that follows `s`.
pub open spec fn rng_next_state(s: u64) -> u64 {
    ((s + 0xA0761D6478BD642F) % 0x1_0000_0000_0000_0000) as u64
}

/// The word drawn from state `s`: the folded halves of a widening product.
pub open spec fn rng_output(s: u64) -> u64 {
    let t = (s as int) * ((s ^ 0xE7037ED1A0B428DB) as int);
    (((t % 0x1_0000_0000_0000_0000) as u64) ^ ((t / 0x1_0000_0000_0000_0000) as u64))
}

/// Pseudo-random generator with one 64-bit word of state.
pub struct Rng {
    state: u64,
}

impl Rng {
    /// A generator starting from the given seed.
    pub fn new(seed: u64) -> (rng: Rng)
        ensures
            rng@ == seed,
    {
        Rng { state: seed }
    }

    /// The current state, for contracts.
    pub closed spec fn view(&self) -> u64 {
        self.state
    }

    /// Draws one 64-bit word and advances the state.
    pub fn generate(&mut self) -> (r: u64)
        ensures
            final(self)@ == rng_next_state(old(self)@),
            r == rng_output(final(self)@),
    {
        let s = self.state.wrapping_add(0xA0761D6478BD642F);
        self.state = s;
        let a = s as u128;
        let b = (s ^ 0xE7037ED1A0B428DB) as u128;
        proof {
            assert(a * b < 0x1_0000_0000_0000_0000_0000_0000_0000_0000) by (nonlinear_arith)
                requires
                    a < 0x1_0000_0000_0000_0000,
                    b < 0x1_0000_0000_0000_0000,
            ;
        }
        let t = a * b;
        let low = (t % 0x1_0000_0000_0000_0000) as u64;
        let high = (t / 0x1_0000_0000_0000_0000) as u64;
        proof {
            assert(t / 0x1_0000_0000_0000_0000 < 0x1_0000_0000_0000_0000) by (nonlinear_arith)
                requires
                    t < 0x1_0000_0000_0000_0000_0000_0000_0000_0000,
            ;
        }
        low ^ high
    }

    /// A uniformly distributed value in `[low, high)`.
    pub fn gen_range(&mut self, low: u64, high: u64) -> (r: u64)
        requires
            low < high,
        ensures
            final(self)@ == rng_next_state(old(self)@),
            r == low + rng_output(final(self)@) % ((high - low) as u64),
            low <= r < high,
    {
        let w = self.generate();
        low + w % (high - low)
    }

    /// A uniformly distributed fixed-point value in `[0, 1)` of a unit.
    pub fn gen_unit(&mut self) -> (r: i64)
        ensures
            final(self)@ == rng_next_state(old(self)@),
            r == rng_output(final(self)@) % (crate::fixed::SCALE as u64),
            0 <= r < crate::fixed::SCALE,
    {
        let w = self.generate();
        (w % (crate::fixed::SCALE as u64)) as i64
    }
}

} // verus!
