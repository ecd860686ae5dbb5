//! A seeded xorshift generator. The same seed gives the same sequence on
//! every machine: the whole algorithm is three shifts and three exclusive-ors
//! on a 64-bit word.

use vstd::prelude::*;

verus! {

/// The state that stands in for the seed zero, which xorshift cannot leave.
pub const ZERO_SEED_STATE: u64 = 0x9E37_79B9_7F4A_7C15;

/// The state a generator starts from for a seed.
pub open spec fn seed_state(seed: u64) -> u64 {
    if seed == 0 {
        ZERO_SEED_STATE
    } else {
        seed
    }
}

/// One xorshift step with the shifts 13, 7 and 17.
pub open spec fn step(state: u64) -> u64 {
    let a = state ^ (state << 13);
    let b = a ^ (a >> 7);
    b ^ (b << 17)
}

/// The state after `n` steps.
pub open spec fn state_after(state: u64, n: nat) -> u64
    decreases n,
{
    if n == 0 {
        state
    } else {
        step(state_after(state, (n - 1) as nat))
    }
}

/// The value drawn from a state for a bound: the next state reduced modulo
/// the bound, and zero for the bound zero.
pub open spec fn ranged(state: u64, bound: int) -> int {
    if bound <= 0 {
        0
    } else {
        (step(state) as int) % bound
    }
}

/// Seeded pseudo-random generator.
#[derive(Debug, Clone)]
pub struct XorShiftRng {
    state: u64,
}

impl View for XorShiftRng {
    type V = u64;

    closed spec fn view(&self) -> u64 {
        self.state
    }
}

impl XorShiftRng {
    /// The generator for a seed.
    pub fn seed_from_u64(seed: u64) -> (rng: XorShiftRng)
        ensures
            rng@ == seed_state(seed),
    {
        if seed == 0 {
            XorShiftRng { state: ZERO_SEED_STATE }
        } else {
            XorShiftRng { state: seed }
        }
    }

    /// Advances the generator by one step and returns the new state.
    pub fn next_u64(&mut self) -> (value: u64)
        ensures
            final(self)@ == step(old(self)@),
            value == step(old(self)@),
    {
        let mut x: u64 = self.state;
        x ^= x << 13;
        x ^= x >> 7;
        x ^= x << 17;
        self.state = x;
        x
    }

    /// Advances the generator by one step and returns a value below `bound`
    /// (zero where `bound` is zero).
    pub fn gen_range(&mut self, bound: usize) -> (value: usize)
        ensures
            final(self)@ == step(old(self)@),
            value == ranged(old(self)@, bound as int),
            bound > 0 ==> value < bound,
    {
        let raw: u64 = self.next_u64();
        if bound == 0 {
            0
        } else {
            (raw % (bound as u64)) as usize
        }
    }
}

} // verus!
