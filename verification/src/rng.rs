//! A small deterministic pseudo-random generator for agent initialization.
//!
//! The generator is a 64-bit add-and-mix sequence: the state advances by a
//! fixed odd constant and the output is a bijective bit mix of the new state.
//! Every draw is a pure function of the state, so a run seeded with the same
//! value always produces the same agents.

use vstd::prelude::*;
use vstd::wrapping::u64_specs;

verus! {

/// State increment of the generator.
pub const RNG_GAMMA: u64 = 0x9E37_79B9_7F4A_7C15;

/// First mixing multiplier.
pub const RNG_MIX_A: u64 = 0xBF58_476D_1CE4_E5B9;

/// Second mixing multiplier.
pub const RNG_MIX_B: u64 = 0x94D0_49BB_1331_11EB;

/// Deterministic pseudo-random generator, a pure function of its seed.
#[derive(Clone, Copy, Debug, PartialEq, Eq, Structural)]
pub struct SimRng {
    pub state: u64,
}

/// The output mix applied to an advanced state.
#[verifier::opaque]
pub open spec fn spec_mix(z0: u64) -> u64 {
    let z1 = u64_specs::wrapping_mul(z0 ^ (z0 >> 30u64), RNG_MIX_A);
    let z2 = u64_specs::wrapping_mul(z1 ^ (z1 >> 27u64), RNG_MIX_B);
    z2 ^ (z2 >> 31u64)
}

/// The state after one draw.
pub open spec fn spec_advance(s: u64) -> u64 {
    u64_specs::wrapping_add(s, RNG_GAMMA)
}

/// The value produced by one draw from state `s`.
pub open spec fn spec_draw(s: u64) -> u64 {
    spec_mix(spec_advance(s))
}

/// The value in `[0, n)` produced by one draw from state `s`.
pub open spec fn spec_draw_below(s: u64, n: u64) -> u64 {
    (spec_draw(s) as int % n as int) as u64
}

impl SimRng {
    /// A generator seeded with `seed`.
    pub fn new(seed: u64) -> (r: SimRng)
        ensures
            r.state == seed,
    {
        SimRng { state: seed }
    }

    /// Draw the next 64-bit value; advances the state by one step.
    pub fn next_u64(&mut self) -> (r: u64)
        ensures
            final(self).state == spec_advance(old(self).state),
            r == spec_draw(old(self).state),
    {
        proof {
            reveal(spec_mix);
        }
        self.state = self.state.wrapping_add(RNG_GAMMA);
        let z0 = self.state;
        let z1 = (z0 ^ (z0 >> 30u64)).wrapping_mul(RNG_MIX_A);
        let z2 = (z1 ^ (z1 >> 27u64)).wrapping_mul(RNG_MIX_B);
        z2 ^ (z2 >> 31u64)
    }

    /// Draw a value uniformly-ish in `[0, n)`; advances the state by one
    /// step. The reduction is by remainder, so for an `n` that is not a
    /// power of two the smallest residues are very slightly favored.
    pub fn below(&mut self, n: u64) -> (r: u64)
        requires
            n >= 1,
        ensures
            final(self).state == spec_advance(old(self).state),
            r == spec_draw_below(old(self).state, n),
            r < n,
    {
        let v = self.next_u64();
        proof {
            crate::fxp::lemma_mod_range(v as int, n as int);
        }
        v % n
    }
}

} // verus!
