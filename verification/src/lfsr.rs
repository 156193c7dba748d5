//! Additive feedback generator over a circular buffer of 32-bit words.
//!
//! Two cursors walk the buffer. Each step adds the word under the rear
//! cursor to the word under the front cursor and hands out the upper 31
//! bits of the sum. The buffer is filled from the caller's seed words, and
//! the first outputs are discarded so that what the caller sees no longer
//! shows the structure of the seed.

use vstd::prelude::*;
use crate::generator::{
    lemma_outputs_skip, outputs, state_after, InvalidSeed, PseudoRandomGenerator, OUTPUT_MAX,
};

verus! {

/// Shortest seed that a generator can be built from. With fewer words the
/// rear cursor leaves the buffer while the first outputs are discarded
/// (see [`lemma_short_seed_leaves_buffer`]).
pub const MIN_SEED_LEN: usize = 3;

/// Multiplier of the pass that derives the buffer from the first seed word.
pub const SCRAMBLE_MULTIPLIER: u32 = 16_807;

/// Modulus of the pass that derives the buffer from the first seed word.
pub const SCRAMBLE_MODULUS: u32 = 2_147_483_647;

/// Outputs discarded per buffer slot in use when a generator is seeded.
pub const WARM_UP_FACTOR: usize = 10;

/// Degree chosen for a seed of `len` words: the largest of 63, 31, 15 and 7
/// that is below `len`, or `len - 1` for a seed of fewer than eight words.
pub open spec fn table_degree(len: nat) -> nat {
    if len >= 64 {
        63
    } else if len >= 32 {
        31
    } else if len >= 16 {
        15
    } else if len >= 8 {
        7
    } else {
        (len - 1) as nat
    }
}

/// Slot at which the rear cursor starts for a seed of `len` words.
pub open spec fn table_separation(len: nat) -> nat {
    if len >= 64 {
        1
    } else if len >= 32 {
        3
    } else if len >= 16 {
        1
    } else if len >= 8 {
        3
    } else {
        0
    }
}

/// Number of outputs discarded when a generator is seeded with `len` words.
pub open spec fn warm_up_steps(len: nat) -> nat {
    (table_degree(len) + 1) * (WARM_UP_FACTOR as nat)
}

/// Sum of two words modulo `2^32`.
pub open spec fn wrapping_sum(a: u32, b: u32) -> u32 {
    ((a + b) % 0x1_0000_0000) as u32
}

/// Mathematical value of a generator.
pub struct FeedbackState {
    /// The circular buffer.
    pub buffer: Seq<u32>,
    /// Slot that the next step writes.
    pub front: int,
    /// Slot that the next step adds to the front slot.
    pub rear: int,
    /// Degree that the seed's length selected.
    pub degree: int,
}

impl FeedbackState {
    /// Slot at which the cursors wrap: the last one of the buffer.
    pub open spec fn end(self) -> int {
        self.buffer.len() - 1
    }

    /// Both cursors are inside the buffer, and the rear cursor stands on the
    /// last slot only while the front cursor stands on the first.
    pub open spec fn wf(self) -> bool {
        &&& self.buffer.len() >= MIN_SEED_LEN
        &&& 0 <= self.front <= self.end()
        &&& 0 <= self.rear <= self.end()
        &&& self.rear == self.end() ==> self.front == 0
        &&& self.degree == table_degree(self.buffer.len())
    }

    /// Word that the next step writes to the front slot.
    pub open spec fn mixed_word(self) -> u32 {
        wrapping_sum(self.buffer[self.front], self.buffer[self.rear])
    }

    /// Value that the next step hands out: the mixed word without its
    /// lowest bit.
    pub open spec fn output(self) -> u32 {
        self.mixed_word() / 2
    }

    /// State after one step. The front cursor wraps to the first slot as soon
    /// as it reaches the last one, and the rear cursor then advances without
    /// wrapping; otherwise the rear cursor advances and wraps in the same
    /// way.
    pub open spec fn step(self) -> FeedbackState {
        let buffer = self.buffer.update(self.front, self.mixed_word());
        if self.front + 1 >= self.end() {
            FeedbackState { buffer, front: 0, rear: self.rear + 1, degree: self.degree }
        } else if self.rear + 1 >= self.end() {
            FeedbackState { buffer, front: self.front + 1, rear: 0, degree: self.degree }
        } else {
            FeedbackState {
                buffer,
                front: self.front + 1,
                rear: self.rear + 1,
                degree: self.degree,
            }
        }
    }

    /// State after `n` steps.
    pub open spec fn run(self, n: nat) -> FeedbackState
        decreases n,
    {
        if n == 0 {
            self
        } else {
            self.run((n - 1) as nat).step()
        }
    }
}

/// One round of the pass that derives the buffer: the product with
/// [`SCRAMBLE_MULTIPLIER`], wrapped to 32 bits, modulo [`SCRAMBLE_MODULUS`].
pub open spec fn scramble(word: u32) -> u32 {
    (((SCRAMBLE_MULTIPLIER as int * word as int) % 0x1_0000_0000) % (SCRAMBLE_MODULUS as int)) as u32
}

/// `n` rounds of [`scramble`] on `word`.
pub open spec fn scramble_iter(word: u32, n: nat) -> u32
    decreases n,
{
    if n == 0 {
        word
    } else {
        scramble(scramble_iter(word, (n - 1) as nat))
    }
}

/// Buffer that a seed is turned into: slot `i` up to the degree holds `i`
/// rounds of [`scramble`] on the first seed word, and the slots above the
/// degree keep their seed words.
pub open spec fn seeded_buffer(seed: Seq<u32>) -> Seq<u32> {
    Seq::new(
        seed.len(),
        |i: int|
            if i <= table_degree(seed.len()) {
                scramble_iter(seed[0], i as nat)
            } else {
                seed[i]
            },
    )
}

/// State that a seed is turned into before any output is discarded: the
/// front cursor on the degree's slot, the rear cursor on the separation's.
pub open spec fn initial_state(seed: Seq<u32>) -> FeedbackState {
    FeedbackState {
        buffer: seeded_buffer(seed),
        front: table_degree(seed.len()) as int,
        rear: table_separation(seed.len()) as int,
        degree: table_degree(seed.len()) as int,
    }
}

/// State of a generator that was just seeded: the initial state after
/// [`warm_up_steps`] steps.
pub open spec fn seeded_state(seed: Seq<u32>) -> FeedbackState {
    initial_state(seed).run(warm_up_steps(seed.len()))
}

/// A step keeps a well-formed state well-formed and leaves the buffer's
/// length and the degree as they were.
pub proof fn lemma_step_wf(s: FeedbackState)
    requires
        s.wf(),
    ensures
        s.step().wf(),
        s.step().buffer.len() == s.buffer.len(),
        s.step().degree == s.degree,
{
}

/// Any number of steps keeps a well-formed state well-formed and leaves the
/// buffer's length and the degree as they were.
pub proof fn lemma_run_wf(s: FeedbackState, n: nat)
    requires
        s.wf(),
    ensures
        s.run(n).wf(),
        s.run(n).buffer.len() == s.buffer.len(),
        s.run(n).degree == s.degree,
    decreases n,
{
    if n > 0 {
        lemma_run_wf(s, (n - 1) as nat);
        lemma_step_wf(s.run((n - 1) as nat));
    }
}

/// A seed of at least [`MIN_SEED_LEN`] words gives a well-formed initial
/// state.
pub proof fn lemma_initial_state_wf(seed: Seq<u32>)
    requires
        seed.len() >= MIN_SEED_LEN,
    ensures
        initial_state(seed).wf(),
        initial_state(seed).buffer.len() == seed.len(),
{
}

/// Why a seed of one or two words is rejected: after as many steps as the
/// seed has words, the rear cursor stands past the last slot of the buffer,
/// and more outputs than that are discarded when a generator is seeded.
pub proof fn lemma_short_seed_leaves_buffer(seed: Seq<u32>)
    requires
        1 <= seed.len() < MIN_SEED_LEN,
    ensures
        initial_state(seed).run(seed.len()).rear == initial_state(seed).buffer.len(),
        seed.len() < warm_up_steps(seed.len()),
{
    reveal_with_fuel(FeedbackState::run, 3);
}

/// Degree and rear-cursor start for a seed of `len` words.
pub fn degree_and_separation(len: usize) -> (r: (usize, usize))
    requires
        len >= 1,
    ensures
        r.0 == table_degree(len as nat),
        r.1 == table_separation(len as nat),
{
    if len >= 64 {
        (63, 1)
    } else if len >= 32 {
        (31, 3)
    } else if len >= 16 {
        (15, 1)
    } else if len >= 8 {
        (7, 3)
    } else {
        (len - 1, 0)
    }
}

/// An additive feedback generator.
pub struct LinearFeedbackShiftRegisterPRNG {
    iv: Vec<u32>,
    front_index: usize,
    rear_index: usize,
    degree: usize,
}

impl View for LinearFeedbackShiftRegisterPRNG {
    type V = FeedbackState;

    closed spec fn view(&self) -> FeedbackState {
        FeedbackState {
            buffer: self.iv@,
            front: self.front_index as int,
            rear: self.rear_index as int,
            degree: self.degree as int,
        }
    }
}

impl LinearFeedbackShiftRegisterPRNG {
    /// Every generator that exists is well-formed.
    #[verifier::type_invariant]
    closed spec fn inv(&self) -> bool {
        self@.wf()
    }

    /// Builds the generator that `seed` gives before any output is
    /// discarded. Fails on a seed of fewer than [`MIN_SEED_LEN`] words.
    pub fn init_seed_info(seed: &Vec<u32>) -> (r: Result<Self, InvalidSeed>)
        ensures
            r is Ok <==> seed@.len() >= MIN_SEED_LEN,
            r matches Ok(rng) ==> rng@ == initial_state(seed@),
            r matches Ok(rng) ==> rng@.wf() && rng@.buffer.len() == seed@.len(),
    {
        if seed.len() < MIN_SEED_LEN {
            return Err(InvalidSeed);
        }
        let mut iv: Vec<u32> = seed.clone();
        let (deg, shift_sep): (usize, usize) = degree_and_separation(iv.len());
        let mut i: usize = 1;
        while i <= deg
            invariant
                iv.len() == seed.len(),
                deg == table_degree(seed@.len()),
                deg < seed.len(),
                1 <= i <= deg + 1,
                forall|j: int| 0 <= j < i ==> iv[j] == scramble_iter(seed[0], j as nat),
                forall|j: int| i <= j < seed.len() ==> iv[j] == seed[j],
            decreases deg + 1 - i,
        {
            let word: u32 = SCRAMBLE_MULTIPLIER.wrapping_mul(iv[i - 1]) % SCRAMBLE_MODULUS;
            iv[i] = word;
            i += 1;
        }
        proof {
            lemma_initial_state_wf(seed@);
            assert(iv@ =~= seeded_buffer(seed@));
        }
        Ok(LinearFeedbackShiftRegisterPRNG {
            iv,
            front_index: deg,
            rear_index: shift_sep,
            degree: deg,
        })
    }

    /// Builds a generator from `seed` and discards its first
    /// [`warm_up_steps`] outputs. Fails on a seed of fewer than
    /// [`MIN_SEED_LEN`] words.
    pub fn from_seed(seed: Vec<u32>) -> (r: Result<Self, InvalidSeed>)
        ensures
            r is Ok <==> seed@.len() >= MIN_SEED_LEN,
            r matches Ok(rng) ==> rng@ == seeded_state(seed@),
            r matches Ok(rng) ==> rng@.wf() && rng@.buffer.len() == seed@.len(),
    {
        match Self::init_seed_info(&seed) {
            Ok(mut rng) => {
                proof {
                    lemma_run_wf(rng@, warm_up_steps(seed@.len()));
                }
                rng.discard((rng.degree + 1) * WARM_UP_FACTOR);
                Ok(rng)
            },
            Err(e) => Err(e),
        }
    }

    /// Replaces the whole state by the one that `seed` gives, as
    /// [`Self::from_seed`] would build it. On a seed of fewer than
    /// [`MIN_SEED_LEN`] words it fails and leaves the generator as it was.
    pub fn reseed(&mut self, seed: Vec<u32>) -> (r: Result<(), InvalidSeed>)
        ensures
            r is Ok <==> seed@.len() >= MIN_SEED_LEN,
            r is Ok ==> final(self)@ == seeded_state(seed@),
            r is Ok ==> final(self)@.buffer.len() == seed@.len(),
            r is Err ==> final(self)@ == old(self)@,
            final(self)@.wf(),
    {
        proof {
            use_type_invariant(&*self);
        }
        match Self::from_seed(seed) {
            Ok(rng) => {
                *self = rng;
                Ok(())
            },
            Err(e) => Err(e),
        }
    }

    /// Degree that the seed's length selected.
    pub fn degree(&self) -> (d: usize)
        ensures
            d == self@.degree,
    {
        self.degree
    }

    /// Performs `n` steps and drops their outputs.
    fn discard(&mut self, n: usize)
        ensures
            final(self)@ == old(self)@.run(n as nat),
            final(self)@.wf(),
    {
        proof {
            use_type_invariant(&*self);
        }
        let mut i: usize = 0;
        while i < n
            invariant
                i <= n,
                self@ == old(self)@.run(i as nat),
                self@.wf(),
            decreases n - i,
        {
            let _ = self.next_u32();
            i += 1;
        }
    }

    /// Performs one step and returns its output.
    pub fn next_u32(&mut self) -> (r: u32)
        ensures
            r == old(self)@.output(),
            final(self)@ == old(self)@.step(),
            final(self)@.wf(),
            r <= OUTPUT_MAX,
    {
        proof {
            use_type_invariant(&*self);
        }
        let end_index: usize = self.iv.len() - 1;
        let sum: u32 = self.iv[self.front_index].wrapping_add(self.iv[self.rear_index]);
        self.iv[self.front_index] = sum;
        let next_rand: u32 = (sum >> 1) & 0x7FFF_FFFF;
        proof {
            lemma_output_is_shifted_word(sum);
        }
        let front: usize = self.front_index + 1;
        if front >= end_index {
            self.front_index = 0;
            self.rear_index = self.rear_index + 1;
        } else {
            let rear: usize = self.rear_index + 1;
            self.rear_index = if rear >= end_index { 0 } else { rear };
            self.front_index = front;
        }
        next_rand
    }
}

/// The shift and mask that a step applies to the mixed word halve it.
pub proof fn lemma_output_is_shifted_word(word: u32)
    ensures
        (word >> 1u32) & 0x7FFF_FFFFu32 == word / 2,
{
    assert((word >> 1u32) & 0x7FFF_FFFFu32 == word / 2) by (bit_vector);
}

/// [`FeedbackState::run`] is what the shared interface calls the state
/// after `n` draws.
pub proof fn lemma_run_is_state_after(s: FeedbackState, n: nat)
    ensures
        state_after::<LinearFeedbackShiftRegisterPRNG>(s, n) == s.run(n),
    decreases n,
{
    if n > 0 {
        lemma_run_is_state_after(s, (n - 1) as nat);
    }
}

/// Seeding consumes exactly [`warm_up_steps`] outputs: what a freshly
/// seeded generator returns is what the initial state would return with
/// that many values dropped from the front.
pub proof fn lemma_seeding_discards_warm_up(seed: Seq<u32>, n: nat)
    ensures
        outputs::<LinearFeedbackShiftRegisterPRNG>(seeded_state(seed), n) == outputs::<
            LinearFeedbackShiftRegisterPRNG,
        >(initial_state(seed), warm_up_steps(seed.len()) + n).skip(
            warm_up_steps(seed.len()) as int,
        ),
{
    let warm_up = warm_up_steps(seed.len());
    lemma_run_is_state_after(initial_state(seed), warm_up);
    lemma_outputs_skip::<LinearFeedbackShiftRegisterPRNG>(initial_state(seed), warm_up, n);
}

impl PseudoRandomGenerator for LinearFeedbackShiftRegisterPRNG {
    type Seed = Vec<u32>;

    open spec fn accepts(seed: &Vec<u32>) -> bool {
        seed@.len() >= MIN_SEED_LEN
    }

    open spec fn seeded(seed: &Vec<u32>) -> FeedbackState {
        seeded_state(seed@)
    }

    open spec fn reseeded(state: FeedbackState, seed: &Vec<u32>) -> FeedbackState {
        seeded_state(seed@)
    }

    open spec fn stepped(state: FeedbackState) -> FeedbackState {
        state.step()
    }

    open spec fn drawn(state: FeedbackState) -> u32 {
        state.output()
    }

    proof fn lemma_drawn_in_range(state: FeedbackState) {
    }

    fn seed(seed: Vec<u32>) -> (r: Result<Self, InvalidSeed>) {
        Self::from_seed(seed)
    }

    fn reseed(&mut self, seed: Vec<u32>) -> (r: Result<(), InvalidSeed>) {
        LinearFeedbackShiftRegisterPRNG::reseed(self, seed)
    }

    fn next_u32(&mut self) -> (r: u32) {
        LinearFeedbackShiftRegisterPRNG::next_u32(self)
    }
}

} // verus!
