//! A small seedable pseudo-random generator for the thermal initializer:
//! the SplitMix64 sequence, whose step and output mix are fixed integer
//! arithmetic, stated exactly.

use vstd::prelude::*;

verus! {

/// A product reduced to 64 bits.
pub open spec fn wrap_mul64(a: u64, b: u64) -> u64 {
    (((a as nat) * (b as nat)) % 0x1_0000_0000_0000_0000) as u64
}

/// A sum reduced to 64 bits.
pub open spec fn wrap_add64(a: u64, b: u64) -> u64 {
    (((a as nat) + (b as nat)) % 0x1_0000_0000_0000_0000) as u64
}

/// The generator state after one draw.
pub open spec fn sm_next_state(s: u64) -> u64 {
    wrap_add64(s, 0x9E3779B97F4A7C15)
}

/// The word produced by one draw from state `s`.
pub open spec fn sm_output(s: u64) -> u64 {
    let z0 = sm_next_state(s);
    let z1 = wrap_mul64(z0 ^ (z0 >> 30), 0xBF58476D1CE4E5B9);
    let z2 = wrap_mul64(z1 ^ (z1 >> 27), 0x94D049BB133111EB);
    z2 ^ (z2 >> 31)
}

/// The generator state after `k` draws from the given seed.
pub open spec fn sm_state_after(seed: u64, k: nat) -> u64
    decreases k,
{
    if k == 0 {
        seed
    } else {
        sm_next_state(sm_state_after(seed, (k - 1) as nat))
    }
}

/// The SplitMix64 generator.
pub struct SplitMix {
    /// The current state
    pub state: u64,
}

impl SplitMix {
    /// A generator at the given seed.
    pub fn new(seed: u64) -> (r: Self)
        ensures
            r.state == seed,
    {
        SplitMix { state: seed }
    }

    /// Draw the next word.
    pub fn next(&mut self) -> (r: u64)
        ensures
            final(self).state == sm_next_state(old(self).state),
            r == sm_output(old(self).state),
    {
        let z0: u64 = (((self.state as u128) + 0x9E3779B97F4A7C15u128)
            % 0x1_0000_0000_0000_0000u128) as u64;
        self.state = z0;
        let m1: u64 = (((((z0 ^ (z0 >> 30)) as u128) * 0xBF58476D1CE4E5B9u128)
            % 0x1_0000_0000_0000_0000u128) as u64);
        let m2: u64 = ((((m1 ^ (m1 >> 27)) as u128) * 0x94D049BB133111EBu128)
            % 0x1_0000_0000_0000_0000u128) as u64;
        m2 ^ (m2 >> 31)
    }
}

} // verus!
