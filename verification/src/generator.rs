//! What the generators have in common.

use vstd::prelude::*;

verus! {

/// Seed material that a generator cannot be built from.
#[derive(Clone, Copy, Debug, PartialEq, Eq, Structural)]
pub struct InvalidSeed;

/// Largest value that any generator hands out.
pub const OUTPUT_MAX: u32 = 0x7FFF_FFFF;

/// A deterministic generator of 31-bit values that is built from seed
/// material and can be reseeded in place.
///
/// The view of a generator is its mathematical state. What a generator
/// does is fixed by functions on seeds and states; the methods' contracts
/// tie the executable code to them.
pub trait PseudoRandomGenerator: View + Sized {
    /// Seed material that the generator is built from.
    type Seed;

    /// Whether a generator can be built from `seed`.
    spec fn accepts(seed: &Self::Seed) -> bool;

    /// State of a generator that was just built from `seed`.
    spec fn seeded(seed: &Self::Seed) -> Self::V;

    /// State that a reseed with `seed` turns `state` into.
    spec fn reseeded(state: Self::V, seed: &Self::Seed) -> Self::V;

    /// State that a draw turns `state` into.
    spec fn stepped(state: Self::V) -> Self::V;

    /// Value that a draw in `state` returns.
    spec fn drawn(state: Self::V) -> u32;

    /// No draw returns more than [`OUTPUT_MAX`].
    proof fn lemma_drawn_in_range(state: Self::V)
        ensures
            Self::drawn(state) <= OUTPUT_MAX,
    ;

    /// Builds a generator from `seed`, or fails where the seed is not
    /// accepted.
    fn seed(seed: Self::Seed) -> (r: Result<Self, InvalidSeed>)
        ensures
            r is Ok <==> Self::accepts(&seed),
            r matches Ok(rng) ==> rng@ == Self::seeded(&seed),
    ;

    /// Reseeds the generator in place. Where the seed is not accepted it
    /// fails and leaves the generator as it was.
    fn reseed(&mut self, seed: Self::Seed) -> (r: Result<(), InvalidSeed>)
        ensures
            r is Ok <==> Self::accepts(&seed),
            r is Ok ==> final(self)@ == Self::reseeded(old(self)@, &seed),
            r is Err ==> final(self)@ == old(self)@,
    ;

    /// Draws the next value.
    fn next_u32(&mut self) -> (r: u32)
        ensures
            r == Self::drawn(old(self)@),
            final(self)@ == Self::stepped(old(self)@),
            r <= OUTPUT_MAX,
    ;
}

/// State that `n` draws turn `state` into.
pub open spec fn state_after<G: PseudoRandomGenerator>(state: G::V, n: nat) -> G::V
    decreases n,
{
    if n == 0 {
        state
    } else {
        G::stepped(state_after::<G>(state, (n - 1) as nat))
    }
}

/// The values that the next `n` draws in `state` return, in order.
pub open spec fn outputs<G: PseudoRandomGenerator>(state: G::V, n: nat) -> Seq<u32> {
    Seq::new(n, |i: int| G::drawn(state_after::<G>(state, i as nat)))
}

/// Drawing `m` values and then `n` more leaves the state that drawing
/// `m + n` values leaves.
pub proof fn lemma_state_after_add<G: PseudoRandomGenerator>(state: G::V, m: nat, n: nat)
    ensures
        state_after::<G>(state_after::<G>(state, m), n) == state_after::<G>(state, m + n),
    decreases n,
{
    if n > 0 {
        lemma_state_after_add::<G>(state, m, (n - 1) as nat);
    }
}

/// After `m` draws, the next `n` values are the last `n` of the first
/// `m + n`.
pub proof fn lemma_outputs_skip<G: PseudoRandomGenerator>(state: G::V, m: nat, n: nat)
    ensures
        outputs::<G>(state_after::<G>(state, m), n) == outputs::<G>(state, m + n).skip(m as int),
{
    let later = outputs::<G>(state_after::<G>(state, m), n);
    let tail = outputs::<G>(state, m + n).skip(m as int);
    assert forall|i: int| 0 <= i < n implies later[i] == tail[i] by {
        lemma_state_after_add::<G>(state, m, i as nat);
    }
    assert(later =~= tail);
}

/// Two generators built from the same seed return the same values, however
/// many are drawn.
pub proof fn lemma_same_seed_same_outputs<G: PseudoRandomGenerator>(
    first: G,
    second: G,
    seed: G::Seed,
    n: nat,
)
    requires
        first@ == G::seeded(&seed),
        second@ == G::seeded(&seed),
    ensures
        outputs::<G>(first@, n) == outputs::<G>(second@, n),
{
}

/// Every value among the next `n` that a generator returns, whatever its
/// state, is at most [`OUTPUT_MAX`].
pub proof fn lemma_outputs_in_range<G: PseudoRandomGenerator>(state: G::V, n: nat)
    ensures
        outputs::<G>(state, n).len() == n,
        forall|i: int| 0 <= i < n ==> #[trigger] outputs::<G>(state, n)[i] <= OUTPUT_MAX,
{
    assert forall|i: int| 0 <= i < n implies #[trigger] outputs::<G>(state, n)[i]
        <= OUTPUT_MAX by {
        G::lemma_drawn_in_range(state_after::<G>(state, i as nat));
    }
}

} // verus!
