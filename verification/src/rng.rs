//! The seedable random source. After `reseed`, every draw is a deterministic
//! function of the seed and of how many draws were made since reseeding;
//! that function is named by `rng_stream`. A freshly constructed source is
//! seeded from the operating system's entropy, so nothing is promised about
//! its draws until the first `reseed`.

use vstd::prelude::*;
use rand::RngCore;
use rand::SeedableRng;
use rand::rngs::StdRng;

verus! {

#[verifier::external_type_specification]
#[verifier::external_body]
pub struct ExStdRng(StdRng);

/// The value of the `k`-th draw (counting from 0) made by a generator that
/// was reseeded with `seed`. The sequence itself (ChaCha12 keyed through
/// `seed_from_u64`) is far too long to state; only its determinism is used.
pub uninterp spec fn rng_stream(seed: u64, k: nat) -> u64;

/// A seedable uniform generator. The ghost model records the regime the
/// generator is in: `is_seeded` says whether it was deterministically
/// reseeded, and if so, `seed` and `drawn` locate it inside the draw
/// sequence of that seed.
pub struct RandomSource {
    rng: StdRng,
    seed: Ghost<u64>,
    drawn: Ghost<nat>,
    seeded: Ghost<bool>,
}

impl RandomSource {
    /// Whether the generator state is a deterministic function of a known seed.
    pub closed spec fn is_seeded(self) -> bool {
        self.seeded@
    }

    /// The seed the source was last reseeded with (meaningful when seeded).
    pub closed spec fn seed(self) -> u64 {
        self.seed@
    }

    /// How many draws were made since the last reseed (meaningful when seeded).
    pub closed spec fn drawn(self) -> nat {
        self.drawn@
    }

    /// A fresh source, seeded from entropy: its draws are not reproducible
    /// until the first `reseed`.
    pub fn new() -> (s: RandomSource)
        ensures
            !s.is_seeded(),
    {
        RandomSource { rng: rng_from_entropy(), seed: Ghost(0u64), drawn: Ghost(0nat), seeded: Ghost(false) }
    }

    /// Deterministically reinitialize the generator from `seed`: the source
    /// now sits at position 0 of the draw sequence of `seed`.
    pub fn reseed(&mut self, seed: u64)
        ensures
            final(self).is_seeded(),
            final(self).seed() == seed,
            final(self).drawn() == 0,
    {
        reseed_raw(self, seed);
    }

    /// Draw the next 64 raw bits. When the source is seeded, the result is
    /// exactly the next element of the seed's draw sequence.
    pub fn next_bits(&mut self) -> (r: u64)
        ensures
            final(self).is_seeded() == old(self).is_seeded(),
            final(self).seed() == old(self).seed(),
            final(self).drawn() == old(self).drawn() + 1,
            old(self).is_seeded() ==> r == rng_stream(old(self).seed(), old(self).drawn()),
    {
        next_raw(self)
    }

    /// Draw a value below `bound`. Every output lies in `[0, bound)`, and a
    /// seeded source gives a value fixed by the seed and the draw position.
    pub fn next_below(&mut self, bound: u64) -> (r: u64)
        requires
            bound > 0,
        ensures
            r < bound,
            final(self).is_seeded() == old(self).is_seeded(),
            final(self).seed() == old(self).seed(),
            final(self).drawn() == old(self).drawn() + 1,
            old(self).is_seeded() ==> r == rng_stream(old(self).seed(), old(self).drawn()) % bound,
    {
        let raw = self.next_bits();
        raw % bound
    }
}

/// Determinism of reseeded sources: the value of a draw is fixed by the seed
/// and by the number of draws made since reseeding, so two sources reseeded
/// with the same seed yield identical draw sequences, call by call.
pub proof fn lemma_reseeded_draws_deterministic(a: RandomSource, b: RandomSource)
    requires
        a.is_seeded(),
        b.is_seeded(),
        a.seed() == b.seed(),
        a.drawn() == b.drawn(),
    ensures
        rng_stream(a.seed(), a.drawn()) == rng_stream(b.seed(), b.drawn()),
{
}

/// Relies on `rand::SeedableRng::from_entropy` for `StdRng`: a fresh
/// generator seeded from the operating system's entropy source. It panics
/// only if that source fails, and nothing is assumed about its draws.
#[verifier::external_body]
fn rng_from_entropy() -> StdRng {
    StdRng::from_entropy()
}

/// Relies on `rand::SeedableRng::seed_from_u64` for `StdRng`: reseeding
/// replaces the whole generator state with one derived from `seed` alone,
/// placing the source at position 0 of the draw sequence of `seed`.
#[verifier::external_body]
fn reseed_raw(source: &mut RandomSource, seed: u64)
    ensures
        final(source).is_seeded(),
        final(source).seed() == seed,
        final(source).drawn() == 0,
{
    source.rng = StdRng::seed_from_u64(seed);
}

/// Relies on `rand::RngCore::next_u64` for `StdRng` (ChaCha12): the draw is
/// a pure function of the generator state, so from the state reached by
/// reseeding with `s` and drawing `k` times it returns `rng_stream(s, k)`,
/// and the source moves one position forward.
#[verifier::external_body]
fn next_raw(source: &mut RandomSource) -> (r: u64)
    ensures
        final(source).is_seeded() == old(source).is_seeded(),
        final(source).seed() == old(source).seed(),
        final(source).drawn() == old(source).drawn() + 1,
        old(source).is_seeded() ==> r == rng_stream(old(source).seed(), old(source).drawn()),
{
    source.rng.next_u64()
}

} // verus!
