//! A small deterministic pseudo-random generator, local to one generation
//! call: a 64-bit xorshift. Repeated runs from the same seed are
//! bit-reproducible, which is what makes puzzle generation a pure function
//! of `(seed, level_index)`.

use vstd::prelude::*;

verus! {

/// Substituted for a zero seed, which xorshift would fix forever.
pub const ZERO_SEED_SUBSTITUTE: u64 = 0x9E37_79B9_7F4A_7C15;

/// One xorshift step: the state after (and the value drawn from) state `s`.
pub open spec fn next_state(s: u64) -> u64 {
    let a = s ^ (s << 13);
    let b = a ^ (a >> 7);
    b ^ (b << 17)
}

/// The state after `k` draws from state `s`.
pub open spec fn state_after(s: u64, k: nat) -> u64
    decreases k,
{
    if k == 0 {
        s
    } else {
        next_state(state_after(s, (k - 1) as nat))
    }
}

/// The initial state for a seed: the seed itself, unless it is zero.
pub open spec fn seeded_state(seed: u64) -> u64 {
    if seed == 0 {
        ZERO_SEED_SUBSTITUTE
    } else {
        seed
    }
}

/// A deterministic 64-bit xorshift generator.
#[derive(Clone, Copy, Debug, PartialEq, Eq, Structural)]
pub struct XorShift64 {
    pub state: u64,
}

impl XorShift64 {
    /// A generator seeded with `seed`.
    pub fn new(seed: u64) -> (r: XorShift64)
        ensures
            r.state == seeded_state(seed),
    {
        if seed == 0 {
            XorShift64 { state: ZERO_SEED_SUBSTITUTE }
        } else {
            XorShift64 { state: seed }
        }
    }

    /// Draws the next value; the value drawn is the new state.
    pub fn next(&mut self) -> (r: u64)
        ensures
            r == next_state(old(self).state),
            final(self).state == next_state(old(self).state),
    {
        let mut s = self.state;
        s = s ^ (s << 13u64);
        s = s ^ (s >> 7u64);
        s = s ^ (s << 17u64);
        self.state = s;
        s
    }
}

} // verus!
