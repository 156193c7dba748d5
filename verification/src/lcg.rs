//! Linear congruential generator with a power-of-two modulus.
//!
//! The recurrence is `state' = (state * a + c) mod 2^31`, computed with
//! 32-bit wrapping arithmetic followed by a 31-bit mask.

use vstd::prelude::*;
use crate::generator::{outputs, state_after, InvalidSeed, PseudoRandomGenerator};

verus! {

/// Multiplier `a` of the recurrence.
pub const MULTIPLIER: u32 = 1_103_515_245;

/// Increment `c` of the recurrence.
pub const INCREMENT: u32 = 12_345;

/// Mask that keeps the low 31 bits of the wrapped multiply-add.
pub const MODULUS_MASK: u32 = 0x7FFF_FFFF;

/// Seed of a generator built without one.
pub const DEFAULT_SEED: u32 = 1;

/// One application of the recurrence, as a function on integers.
pub open spec fn lcg_next(state: u32) -> u32 {
    ((state as int * MULTIPLIER as int + INCREMENT as int) % 0x8000_0000) as u32
}

/// Mathematical value of a generator: the seed it last recorded and the
/// register the recurrence runs on.
pub struct LcgState {
    /// Seed recorded by the last construction or reseed.
    pub seed: u32,
    /// Register of the recurrence, which is also the last value drawn.
    pub state: u32,
}

impl LcgState {
    /// Value after a reseed with `seed`: the recorded seed is `seed`, or one
    /// where `seed` is zero; the register keeps its value.
    pub open spec fn reseeded(self, seed: u32) -> LcgState {
        LcgState {
            seed: if seed == 0 {
                1
            } else {
                seed
            },
            state: self.state,
        }
    }

    /// Value after one draw.
    pub open spec fn step(self) -> LcgState {
        LcgState { seed: self.seed, state: lcg_next(self.state) }
    }

    /// Value that the next draw returns.
    pub open spec fn output(self) -> u32 {
        lcg_next(self.state)
    }
}

/// A 31-bit linear congruential generator.
pub struct LinearCongruentialPRNG {
    seed: u32,
    rand_state: u32,
}

impl View for LinearCongruentialPRNG {
    type V = LcgState;

    closed spec fn view(&self) -> LcgState {
        LcgState { seed: self.seed, state: self.rand_state }
    }
}

/// The 32-bit wrapping multiply-add followed by the mask is the recurrence
/// modulo `2^31`.
pub proof fn lemma_masked_wrapping_step(state: u32)
    ensures
        (state.wrapping_mul(MULTIPLIER).wrapping_add(INCREMENT)) & MODULUS_MASK == lcg_next(state),
{
    let product: u32 = state.wrapping_mul(MULTIPLIER);
    let sum: u32 = product.wrapping_add(INCREMENT);
    assert(sum & 0x7FFF_FFFFu32 == sum % 0x8000_0000u32) by (bit_vector);
}

impl LinearCongruentialPRNG {
    /// A generator seeded with [`DEFAULT_SEED`].
    pub fn new_unseeded() -> (rng: Self)
        ensures
            rng@ == (LcgState { seed: DEFAULT_SEED, state: DEFAULT_SEED }),
    {
        LinearCongruentialPRNG { seed: DEFAULT_SEED, rand_state: DEFAULT_SEED }
    }

    /// A generator whose recorded seed and register both hold `seed`, as it
    /// is given: a zero stays a zero.
    pub fn from_seed(seed: u32) -> (rng: Self)
        ensures
            rng@ == (LcgState { seed, state: seed }),
    {
        LinearCongruentialPRNG { seed, rand_state: seed }
    }

    /// Records `seed` as the generator's seed, with one in place of zero.
    /// The register is left alone, so the outputs that follow continue the
    /// sequence that was running.
    pub fn reseed(&mut self, seed: u32)
        ensures
            final(self)@ == old(self)@.reseeded(seed),
            final(self)@.seed == (if seed == 0 { 1 } else { seed }),
            final(self)@.state == old(self)@.state,
    {
        self.seed = if seed == 0 {
            1
        } else {
            seed
        };
    }

    /// The seed that the generator last recorded.
    pub fn recorded_seed(&self) -> (seed: u32)
        ensures
            seed == self@.seed,
    {
        self.seed
    }

    /// Advances the recurrence once and returns the new register value.
    pub fn next_u32(&mut self) -> (r: u32)
        ensures
            r == old(self)@.output(),
            final(self)@ == old(self)@.step(),
            final(self)@.state == r,
            r <= MODULUS_MASK,
    {
        proof {
            lemma_masked_wrapping_step(self.rand_state);
        }
        let next_rand: u32 = self.rand_state.wrapping_mul(MULTIPLIER).wrapping_add(INCREMENT)
            & MODULUS_MASK;
        self.rand_state = next_rand;
        next_rand
    }
}

/// The recorded seed takes no part in the recurrence: generators whose
/// registers agree stay in step.
pub proof fn lemma_register_decides(first: LcgState, second: LcgState, n: nat)
    requires
        first.state == second.state,
    ensures
        state_after::<LinearCongruentialPRNG>(first, n).state == state_after::<
            LinearCongruentialPRNG,
        >(second, n).state,
        state_after::<LinearCongruentialPRNG>(first, n).seed == first.seed,
        outputs::<LinearCongruentialPRNG>(first, n) == outputs::<LinearCongruentialPRNG>(second, n),
    decreases n,
{
    if n > 0 {
        lemma_register_decides(first, second, (n - 1) as nat);
    }
    let a = outputs::<LinearCongruentialPRNG>(first, n);
    let b = outputs::<LinearCongruentialPRNG>(second, n);
    assert forall|i: int| 0 <= i < n implies a[i] == b[i] by {
        lemma_register_decides(first, second, i as nat);
    }
    assert(a =~= b);
}

/// A reseed does not restart the sequence: the next value, and every value
/// after it, is the one that would have come without the reseed.
pub proof fn lemma_reseed_keeps_sequence(state: LcgState, seed: u32, n: nat)
    ensures
        state.reseeded(seed).output() == state.output(),
        outputs::<LinearCongruentialPRNG>(state.reseeded(seed), n) == outputs::<
            LinearCongruentialPRNG,
        >(state, n),
{
    lemma_register_decides(state.reseeded(seed), state, n);
}

impl PseudoRandomGenerator for LinearCongruentialPRNG {
    type Seed = u32;

    open spec fn accepts(seed: &u32) -> bool {
        true
    }

    open spec fn seeded(seed: &u32) -> LcgState {
        LcgState { seed: *seed, state: *seed }
    }

    open spec fn reseeded(state: LcgState, seed: &u32) -> LcgState {
        state.reseeded(*seed)
    }

    open spec fn stepped(state: LcgState) -> LcgState {
        state.step()
    }

    open spec fn drawn(state: LcgState) -> u32 {
        state.output()
    }

    proof fn lemma_drawn_in_range(state: LcgState) {
    }

    fn seed(seed: u32) -> (r: Result<Self, InvalidSeed>) {
        Ok(Self::from_seed(seed))
    }

    fn reseed(&mut self, seed: u32) -> (r: Result<(), InvalidSeed>) {
        LinearCongruentialPRNG::reseed(self, seed);
        Ok(())
    }

    fn next_u32(&mut self) -> (r: u32) {
        LinearCongruentialPRNG::next_u32(self)
    }
}

} // verus!
