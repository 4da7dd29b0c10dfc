//! Lehmer's multiplicative generator on a 128-bit state.

use vstd::prelude::*;
use crate::source::Source;

verus! {

/// The odd 64-bit multiplier of the generator.
pub const MULTIPLIER: u128 = 0xda942042e4dd58b5;

/// How many outputs `Rng::new` discards to mix a seed.
pub const WARMUP: usize = 100;

/// The state that follows `s`: the product with `MULTIPLIER`, modulo 2^128.
pub open spec fn step(s: u128) -> u128 {
    ((s as nat * MULTIPLIER as nat) % (u128::MAX as nat + 1)) as u128
}

/// The number drawn from a state: its upper 64 bits.
pub open spec fn output(s: u128) -> usize {
    (s / 0x1_0000_0000_0000_0000) as usize
}

/// The state reached from `s` after `n` steps.
pub open spec fn step_n(s: u128, n: nat) -> u128
    decreases n,
{
    if n == 0 {
        s
    } else {
        step_n(step(s), (n - 1) as nat)
    }
}

/// A pseudo-random generator; its view is the 128-bit state.
pub struct Rng {
    value: u128,
}

impl View for Rng {
    type V = u128;

    closed spec fn view(&self) -> u128 {
        self.value
    }
}

impl Rng {
    /// The generator that `new` makes of `seed`.
    pub closed spec fn new_spec(seed: u64) -> Rng {
        Rng { value: step_n(seed as u128, WARMUP as nat) }
    }

    /// A generator in the state `WARMUP` steps after `seed`.
    #[verifier::when_used_as_spec(new_spec)]
    pub fn new(seed: u64) -> (res: Rng)
        ensures
            res == Rng::new_spec(seed),
            res@ == step_n(seed as u128, WARMUP as nat),
    {
        let mut res = Rng { value: seed as u128 };
        let mut i: usize = 0;
        while i < WARMUP
            invariant
                i <= WARMUP,
                step_n(res@, (WARMUP - i) as nat) == step_n(seed as u128, WARMUP as nat),
            decreases WARMUP - i,
        {
            let _ = res.next();
            i += 1;
        }
        res
    }

    /// Advances the state by one step and returns the number drawn from the
    /// new state.
    pub fn next(&mut self) -> (r: usize)
        ensures
            final(self)@ == step(old(self)@),
            r == output(final(self)@),
    {
        let v: u128 = self.value.wrapping_mul(MULTIPLIER);
        self.value = v;
        assert(v >> 64 == v / 0x1_0000_0000_0000_0000) by (bit_vector);
        (v >> 64) as usize
    }
}

impl Source for Rng {
    closed spec fn drawn(&self) -> usize {
        output(step(self.value))
    }

    closed spec fn advanced(&self) -> Rng {
        Rng { value: step(self.value) }
    }

    fn draw(&mut self) -> (r: usize) {
        self.next()
    }
}

/// What a draw from an `Rng` is, in terms of its state: the draw returns the
/// number of the next state, and leaves the generator in that state.
pub proof fn rng_draw_is_step(rng: Rng)
    ensures
        rng.drawn() == output(step(rng@)),
        rng.advanced()@ == step(rng@),
{
}

/// Two generators in the same state are the same source.
pub proof fn rng_equal_by_state(a: Rng, b: Rng)
    requires
        a@ == b@,
    ensures
        a == b,
{
}

} // verus!
