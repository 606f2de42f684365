//! Deterministic, reseedable random source.
//!
//! The generator is the splitmix64 scheme: a 64-bit counter advanced by a
//! fixed odd step, whose output is the counter run through a mixing
//! function. Its whole behaviour is written out as specification functions,
//! so every draw is an exact, reproducible function of the seed — which is
//! what makes the animation bit-for-bit replayable from a recorded seed.

use vstd::prelude::*;

verus! {

/// Odd step added to the state before every draw.
pub const STATE_STEP: u64 = 0x9E37_79B9_7F4A_7C15;

/// First multiplier of the output mixing function.
pub const MIX_MULTIPLIER_ONE: u64 = 0xBF58_476D_1CE4_E5B9;

/// Second multiplier of the output mixing function.
pub const MIX_MULTIPLIER_TWO: u64 = 0x94D0_49BB_1331_11EB;

/// The state that follows `s`.
pub open spec fn next_state(s: u64) -> u64 {
    s.wrapping_add(STATE_STEP)
}

/// The output word produced from a state `s`.
pub open spec fn mix_output(s: u64) -> u64 {
    let a = (s ^ (s >> 30)).wrapping_mul(MIX_MULTIPLIER_ONE);
    let b = (a ^ (a >> 27)).wrapping_mul(MIX_MULTIPLIER_TWO);
    b ^ (b >> 31)
}

/// The word that a draw returns when the state before the draw is `s`.
pub open spec fn draw_value(s: u64) -> u64 {
    mix_output(next_state(s))
}

/// A deterministic random source with a single 64-bit state word.
///
/// Reseeding replaces the state outright; it never rewinds — a replaced
/// seed's sequence can only be recovered by recording the seed outside.
pub struct RandomSource {
    pub state: u64,
}

impl RandomSource {
    /// A source whose state is exactly the seed.
    pub fn from_seed(seed: u64) -> (source: RandomSource)
        ensures
            source.state == seed,
    {
        RandomSource { state: seed }
    }

    /// Advances the state by one step and returns the mixed output.
    pub fn next_u64(&mut self) -> (word: u64)
        ensures
            final(self).state == next_state(old(self).state),
            word == draw_value(old(self).state),
    {
        self.state = self.state.wrapping_add(STATE_STEP);
        let s = self.state;
        let a = (s ^ (s >> 30u64)).wrapping_mul(MIX_MULTIPLIER_ONE);
        let b = (a ^ (a >> 27u64)).wrapping_mul(MIX_MULTIPLIER_TWO);
        b ^ (b >> 31u64)
    }

    /// One draw, reduced below `bound`.
    pub fn next_below(&mut self, bound: u64) -> (value: u64)
        requires
            bound > 0,
        ensures
            final(self).state == next_state(old(self).state),
            value == draw_value(old(self).state) % bound,
            value < bound,
    {
        let word = self.next_u64();
        word % bound
    }
}

} // verus!
