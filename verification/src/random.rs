use vstd::prelude::*;

verus! {

/// Denominator of all fixed-point probabilities: a probability `p` means
/// `p / PROB_DENOM`.
pub const PROB_DENOM: u64 = 1_000_000;

/// A seeded, reproducible stream of pseudo-random integers (a 64-bit
/// xorshift generator). The whole network construction is a function of the
/// seed: every draw is pinned exactly by the contracts below, which is what
/// makes `build` deterministic end to end.
pub struct RandomStream {
    pub state: u64,
}

/// One xorshift step of the generator state.
pub open spec fn scramble(s: u64) -> u64 {
    let a = s ^ (s << 13);
    let b = a ^ (a >> 7);
    b ^ (b << 17)
}

/// The initial state derived from a seed.
pub open spec fn seed_state(seed: u32) -> u64 {
    (seed as u64) ^ 0x9E3779B97F4A7C15u64
}

impl RandomStream {
    pub fn new(seed: u32) -> (r: RandomStream)
        ensures
            r.state == seed_state(seed),
    {
        RandomStream { state: (seed as u64) ^ 0x9E3779B97F4A7C15u64 }
    }

    /// Advances the state by one step and returns it.
    pub fn next_value(&mut self) -> (r: u64)
        ensures
            final(self).state == scramble(old(self).state),
            r == final(self).state,
    {
        let s0: u64 = self.state;
        let a: u64 = s0 ^ (s0 << 13u64);
        let b: u64 = a ^ (a >> 7u64);
        let c: u64 = b ^ (b << 17u64);
        self.state = c;
        c
    }

    /// A uniform draw from `[0, bound)`.
    pub fn gen_range(&mut self, bound: u64) -> (r: u64)
        requires
            bound > 0,
        ensures
            final(self).state == scramble(old(self).state),
            r == scramble(old(self).state) % bound,
            r < bound,
    {
        let v: u64 = self.next_value();
        v % bound
    }

    /// A biased boolean draw: true with probability `p / PROB_DENOM`.
    pub fn gen_bool(&mut self, p: u64) -> (r: bool)
        requires
            p <= PROB_DENOM,
        ensures
            final(self).state == scramble(old(self).state),
            r == (scramble(old(self).state) % PROB_DENOM < p),
    {
        let v: u64 = self.gen_range(PROB_DENOM);
        v < p
    }
}

} // verus!
