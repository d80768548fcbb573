//! The deterministic workload generator.
//!
//! A generator is seeded from a fixed constant and yields a reproducible
//! pseudo-random stream; `rewind` restores the exact state produced by
//! construction, so every timed trial replays an identical sequence of
//! draws.  The model of a generator is its seed together with the history
//! of draws made so far: the entry `(0, 0, 0)` records a full-word draw and
//! `(1, lo, hi)` records a bounded integer draw.  Each draw's value is a
//! function of the seed and that history alone, which is exactly what the
//! pinned pseudo-random number generator guarantees.

use vstd::prelude::*;

verus! {

#[verifier::external_type_specification]
#[verifier::external_body]
pub struct ExStdRng(rand::rngs::StdRng);

/// The mathematical state of a workload generator: its seed and the draws
/// made since it was last seeded.
pub struct RngModel {
    pub seed: u64,
    pub draws: Seq<(int, int, int)>,
}

/// The value of a full-word draw made with `seed` after the draw history
/// `draws`.  Names the result of `rand::RngCore::next_u32` on a
/// `rand::rngs::StdRng` seeded with `seed_from_u64`, which depends on the
/// seed and the draws made before it alone.
pub uninterp spec fn rng_word_value(seed: u64, draws: Seq<(int, int, int)>) -> u32;

/// The value of a bounded integer draw in `lo..hi` made with `seed` after
/// the draw history `draws`.  Names the result of
/// `rand::Rng::random_range` over `i32` on a `rand::rngs::StdRng`, which
/// depends on the seed, the prior draws and the bounds alone.
pub uninterp spec fn rng_int_value(seed: u64, draws: Seq<(int, int, int)>, lo: i32, hi: i32) -> i32;

/// Relies on `rand::rngs::StdRng::seed_from_u64`: construction from a
/// `u64` seed is deterministic for the pinned version of `rand`, so equal
/// seeds give streams that draw equal values.
#[verifier::external_body]
fn seeded_std_rng(seed: u64) -> rand::rngs::StdRng {
    <rand::rngs::StdRng as rand::SeedableRng>::seed_from_u64(seed)
}

/// A rewindable deterministic pseudo-random stream.
pub struct BenchRandom {
    rng: rand::rngs::StdRng,
    seed: u64,
    draws: Ghost<Seq<(int, int, int)>>,
}

impl View for BenchRandom {
    type V = RngModel;

    closed spec fn view(&self) -> RngModel {
        RngModel { seed: self.seed, draws: self.draws@ }
    }
}

impl BenchRandom {
    /// Creates a generator seeded with `seed`, with an empty draw history.
    pub fn new(seed: u64) -> (r: Self)
        ensures
            r@.seed == seed,
            r@.draws == Seq::<(int, int, int)>::empty(),
    {
        BenchRandom { rng: seeded_std_rng(seed), seed, draws: Ghost(Seq::empty()) }
    }

    /// The seed this generator was created with.
    pub fn seed(&self) -> (r: u64)
        ensures
            r == self@.seed,
    {
        self.seed
    }

    /// Re-seeds the stream: the state afterwards is exactly the state that
    /// construction with the same seed produces, so all future draws repeat
    /// the draws made right after construction.
    pub fn rewind(&mut self)
        ensures
            final(self)@.seed == old(self)@.seed,
            final(self)@.draws == Seq::<(int, int, int)>::empty(),
    {
        let s: u64 = self.seed();
        *self = Self::new(s);
    }

    /// Draws one full 32-bit word.
    ///
    /// Relies on `rand::RngCore::next_u32` of `rand::rngs::StdRng`: the
    /// value drawn is a function of the seed and the draws made before it,
    /// for the pinned version of `rand`.
    #[verifier::external_body]
    pub fn next_color(&mut self) -> (r: u32)
        ensures
            r == rng_word_value(old(self)@.seed, old(self)@.draws),
            final(self)@.seed == old(self)@.seed,
            final(self)@.draws == old(self)@.draws.push((0int, 0int, 0int)),
    {
        rand::RngCore::next_u32(&mut self.rng)
    }

    /// Draws an integer uniformly from `lo..hi`.
    ///
    /// Relies on `rand::Rng::random_range` over `i32` of
    /// `rand::rngs::StdRng`: it panics on an empty range, returns a value
    /// inside the half-open range, and the value drawn is a function of the
    /// seed, the prior draws and the bounds, for the pinned version of
    /// `rand`.
    #[verifier::external_body]
    pub fn next_i32(&mut self, lo: i32, hi: i32) -> (r: i32)
        requires
            lo < hi,
        ensures
            lo <= r < hi,
            r == rng_int_value(old(self)@.seed, old(self)@.draws, lo, hi),
            final(self)@.seed == old(self)@.seed,
            final(self)@.draws == old(self)@.draws.push((1int, lo as int, hi as int)),
    {
        rand::Rng::random_range(&mut self.rng, lo..hi)
    }

    /// Draws one word and keeps its lowest bit.
    pub fn next_bool(&mut self) -> (r: bool)
        ensures
            r == (rng_word_value(old(self)@.seed, old(self)@.draws) & 1u32 == 1u32),
            final(self)@.seed == old(self)@.seed,
            final(self)@.draws == old(self)@.draws.push((0int, 0int, 0int)),
    {
        let w: u32 = self.next_color();
        w & 1 == 1
    }
}

/// Determinism of the workload generator: two generators that hold the same
/// seed and have made the same draws return identical values for the next
/// draw of every kind.  Two generators constructed independently from one
/// seed therefore produce identical output sequences when driven by the
/// same calls in the same order.
pub proof fn lemma_same_history_same_draws(a: RngModel, b: RngModel, lo: i32, hi: i32)
    requires
        a.seed == b.seed,
        a.draws == b.draws,
    ensures
        rng_word_value(a.seed, a.draws) == rng_word_value(b.seed, b.draws),
        rng_int_value(a.seed, a.draws, lo, hi) == rng_int_value(b.seed, b.draws, lo, hi),
{
}

/// Rewinding restores the model that construction with the same seed
/// yields: from either state, making the draws recorded in `replay` leads
/// to the same next value, for every draw history `replay` and so for any
/// number of draws.
pub proof fn lemma_rewound_generator_replays(
    rewound: RngModel,
    fresh: RngModel,
    replay: Seq<(int, int, int)>,
    lo: i32,
    hi: i32,
)
    requires
        rewound.seed == fresh.seed,
        rewound.draws == Seq::<(int, int, int)>::empty(),
        fresh.draws == Seq::<(int, int, int)>::empty(),
    ensures
        rng_word_value(rewound.seed, rewound.draws + replay) == rng_word_value(
            fresh.seed,
            fresh.draws + replay,
        ),
        rng_int_value(rewound.seed, rewound.draws + replay, lo, hi) == rng_int_value(
            fresh.seed,
            fresh.draws + replay,
            lo,
            hi,
        ),
{
    assert(rewound.draws + replay =~= fresh.draws + replay);
}

} // verus!
