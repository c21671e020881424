//! Tiny deterministic pseudo-random stream (SplitMix64) for reproducible
//! synthetic instances.
//!
//! Reproducibility does not depend on a third-party distribution
//! implementation: the stream is a fixed function of the seed.

use vstd::prelude::*;

verus! {

/// The increment added to the state before every draw.
pub const GOLDEN_GAMMA: u64 = 0x9e37_79b9_7f4a_7c15;

/// `2^64`.
pub open spec fn word() -> int {
    0x1_0000_0000_0000_0000
}

/// The output mixing function applied to an advanced state.
pub open spec fn mix(z: u64) -> u64 {
    let a = ((((z ^ (z >> 30u64)) as int) * 0xbf58_476d_1ce4_e5b9int) % word()) as u64;
    let b = ((((a ^ (a >> 27u64)) as int) * 0x94d0_49bb_1331_11ebint) % word()) as u64;
    b ^ (b >> 31u64)
}

/// The state after `draws` draws from `seed`: `seed + draws * gamma`
/// modulo `2^64`.
pub open spec fn state_after(seed: u64, draws: nat) -> u64 {
    ((seed as int + draws * (GOLDEN_GAMMA as int)) % word()) as u64
}

/// The `index`-th value (zero-based) drawn from `seed`.
pub open spec fn draw(seed: u64, index: nat) -> u64 {
    mix(state_after(seed, index + 1))
}

/// A SplitMix64 generator.
#[derive(Clone, Copy, Debug)]
pub struct SplitMix64 {
    state: u64,
}

impl SplitMix64 {
    /// The current state.
    pub closed spec fn state(&self) -> u64 {
        self.state
    }

    /// A generator seeded with `seed`.
    pub fn new(seed: u64) -> (generator: Self)
        ensures
            generator.state() == seed,
    {
        SplitMix64 { state: seed }
    }

    /// Advances the state and returns the mixed value.
    pub fn next_u64(&mut self) -> (value: u64)
        ensures
            final(self).state() == ((old(self).state() as int + GOLDEN_GAMMA as int) % word()) as u64,
            value == mix(final(self).state()),
    {
        self.state = self.state.wrapping_add(GOLDEN_GAMMA);
        let mut value = self.state;
        value = (value ^ (value >> 30u64)).wrapping_mul(0xbf58_476d_1ce4_e5b9);
        value = (value ^ (value >> 27u64)).wrapping_mul(0x94d0_49bb_1331_11eb);
        value ^ (value >> 31u64)
    }
}

/// The stream is a fixed function of the seed: after `draws` draws the
/// state is `seed + draws * gamma (mod 2^64)`, so the next value is the
/// `draws`-th value of the stream of `seed`. Two generators with the same
/// seed therefore produce the same values.
pub proof fn lemma_draw_follows_seed(seed: u64, draws: nat, state: u64)
    requires
        state == state_after(seed, draws),
    ensures
        ((state as int + GOLDEN_GAMMA as int) % word()) as u64 == state_after(seed, draws + 1),
        mix(((state as int + GOLDEN_GAMMA as int) % word()) as u64) == draw(seed, draws),
{
    let m = word();
    let g = GOLDEN_GAMMA as int;
    let x = seed as int + draws * g;
    vstd::arithmetic::div_mod::lemma_add_mod_noop(x, g, m);
    vstd::arithmetic::div_mod::lemma_mod_bound(x, m);
    vstd::arithmetic::div_mod::lemma_small_mod(GOLDEN_GAMMA as nat, m as nat);
    assert(x + g == seed as int + (draws + 1) * g) by (nonlinear_arith)
        requires
            x == seed as int + draws * g,
    ;
    assert(state as int == x % m);
}

/// The seed of the `step`-th (0-based) perturbation stream of an instance
/// seeded with `seed`: streams differ per step yet depend on nothing else.
pub fn perturbation_seed(seed: u64, step: u64) -> (value: u64)
    requires
        (step + 1) * 0x9e37_79b9 <= u64::MAX,
    ensures
        value == seed ^ (((step + 1) * 0x9e37_79b9) as u64),
{
    seed ^ ((step + 1) * 0x9e37_79b9)
}

} // verus!
