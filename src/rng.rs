//! A seeded linear-congruential generator: the same seed always yields the
//! same stream.

use vstd::prelude::*;

verus! {

/// Multiplier of the generator (Knuth's MMIX constant).
pub const LCG_MULTIPLIER: u64 = 6364136223846793005;

/// One step of the generator: `state * LCG_MULTIPLIER + 1` modulo 2^64.
pub open spec fn lcg_step(state: u64) -> u64 {
    ((state as int * LCG_MULTIPLIER as int + 1) % 0x1_0000_0000_0000_0000) as u64
}

/// State after `n` steps from `state`.
pub open spec fn lcg_iterate(state: u64, n: nat) -> u64
    decreases n,
{
    if n == 0 {
        state
    } else {
        lcg_step(lcg_iterate(state, (n - 1) as nat))
    }
}

/// Upper 32 bits of a generator output.
pub open spec fn high_word(x: u64) -> u32 {
    (x >> 32u64) as u32
}

/// Simple seeded generator for reproducible benchmarks.
pub struct SeededRng {
    state: u64,
}

impl SeededRng {
    /// The current state of the generator.
    pub closed spec fn state(&self) -> u64 {
        self.state
    }

    pub fn new(seed: u64) -> (r: SeededRng)
        ensures
            r.state() == seed,
    {
        SeededRng { state: seed }
    }

    /// Advances the generator and returns its new state.
    pub fn next_u64(&mut self) -> (r: u64)
        ensures
            r == lcg_step(old(self).state()),
            final(self).state() == r,
    {
        let m = self.state.wrapping_mul(LCG_MULTIPLIER);
        proof {
            let p = self.state as int * LCG_MULTIPLIER as int;
            vstd::arithmetic::div_mod::lemma_add_mod_noop(p, 1, 0x1_0000_0000_0000_0000);
            vstd::arithmetic::div_mod::lemma_small_mod(1nat, 0x1_0000_0000_0000_0000nat);
        }
        self.state = m.wrapping_add(1);
        self.state
    }

    /// Draws a value in `[0, max)` from the upper 32 bits of the next output.
    pub fn next_u32_range(&mut self, max: u32) -> (r: u32)
        requires
            max > 0,
        ensures
            final(self).state() == lcg_step(old(self).state()),
            r == high_word(lcg_step(old(self).state())) % max,
            r < max,
    {
        let n = self.next_u64();
        ((n >> 32u64) as u32) % max
    }
}

} // verus!
