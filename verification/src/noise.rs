//! The linear congruential generator behind the attack noise and the
//! per-mode frequency jitter of the reeds.

use vstd::prelude::*;

verus! {

/// Multiplier of the generator (Numerical Recipes).
pub const LCG_MULTIPLIER: u32 = 1664525;

/// Increment of the generator (Numerical Recipes).
pub const LCG_INCREMENT: u32 = 1013904223;

/// The state after `state`: `state * 1664525 + 1013904223` modulo `2^32`.
pub open spec fn spec_lcg_next(state: u32) -> u32 {
    ((state as int * LCG_MULTIPLIER as int + LCG_INCREMENT as int) % 0x1_0000_0000) as u32
}

/// Advances the generator by one step.
pub fn lcg_next(state: u32) -> (next: u32)
    ensures
        next == spec_lcg_next(state),
{
    let m = state.wrapping_mul(LCG_MULTIPLIER);
    let r = m.wrapping_add(LCG_INCREMENT);
    proof {
        assert(m as int == (state as int * LCG_MULTIPLIER as int) % 0x1_0000_0000);
        vstd::arithmetic::div_mod::lemma_add_mod_noop(
            state as int * LCG_MULTIPLIER as int,
            LCG_INCREMENT as int,
            0x1_0000_0000,
        );
        vstd::arithmetic::div_mod::lemma_small_mod(LCG_INCREMENT as nat, 0x1_0000_0000);
    }
    r
}

/// Countdown of an attack-noise burst: how many samples of the burst are
/// still to be rendered.
pub struct NoiseBurst {
    remaining: u32,
}

impl View for NoiseBurst {
    type V = u32;

    closed spec fn view(&self) -> u32 {
        self.remaining
    }
}

impl NoiseBurst {
    /// A burst of `duration_samples` samples.
    pub fn new(duration_samples: u32) -> (b: Self)
        ensures
            b@ == duration_samples,
    {
        NoiseBurst { remaining: duration_samples }
    }

    /// Takes the burst samples that fall in a block of `available` samples:
    /// returns how many are rendered now, and counts them off.
    pub fn take(&mut self, available: usize) -> (count: usize)
        ensures
            count == if (old(self)@ as int) < (available as int) { old(self)@ as int } else { available as int },
            final(self)@ == old(self)@ - count,
    {
        let count: usize = if (self.remaining as u64) < (available as u64) {
            self.remaining as usize
        } else {
            available
        };
        self.remaining = self.remaining - count as u32;
        count
    }

    /// Whether the burst is over.
    pub fn is_done(&self) -> (done: bool)
        ensures
            done == (self@ == 0),
    {
        self.remaining == 0
    }
}

} // verus!
