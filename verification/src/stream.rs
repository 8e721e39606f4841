//! A seeded, deterministic stream of full-width random words.
//!
//! The permutation generator draws its randomness from here. The stream is
//! modelled by the uninterpreted function [`stream_word`]: the `idx`-th word
//! depends on the seed string alone, which is what makes every permutation
//! reproducible from its seed.

use vstd::prelude::*;

verus! {

/// The `idx`-th word of the deterministic pseudo-random word stream obtained
/// by seeding a Xoshiro256++ generator from the string `seed`.
pub uninterp spec fn stream_word(seed: Seq<char>, idx: nat) -> u64;

/// Declares `rand_xoshiro::Xoshiro256PlusPlus`, the pseudo-random generator
/// behind the word stream, as an opaque outside type.
#[verifier::external_type_specification]
#[verifier::external_body]
pub struct ExXoshiro256PlusPlus(rand_xoshiro::Xoshiro256PlusPlus);

/// A seeded word stream; wraps the generator together with the ghost seed and
/// the count of words drawn so far.
pub struct WordStream {
    rng: rand_xoshiro::Xoshiro256PlusPlus,
    seed: Ghost<Seq<char>>,
    idx: Ghost<nat>,
}

impl WordStream {
    /// The seed string this stream was created from.
    pub closed spec fn spec_seed(&self) -> Seq<char> {
        self.seed@
    }

    /// How many words have been drawn so far.
    pub closed spec fn spec_idx(&self) -> nat {
        self.idx@
    }

    /// Create a stream from a seed string; no words have been drawn yet.
    pub fn new(seed: &str) -> (r: WordStream)
        ensures
            r.spec_seed() == seed@,
            r.spec_idx() == 0,
    {
        WordStream { rng: seeded_rng(seed), seed: Ghost(seed@), idx: Ghost(0 as nat) }
    }

    /// Relies on `rand_xoshiro::Xoshiro256PlusPlus::next_u64` (via
    /// `rand_core::Rng`): each output word is a pure function of the generator
    /// state, and the state reached after `idx` draws is a pure function of
    /// the seed handed to [`seeded_rng`], so the word at a given position
    /// depends on the seed string alone. The last clause relies on the
    /// generator's full period: over one period its outputs take every 64-bit
    /// value, so from any position some later word lies below `2^63`.
    #[verifier::external_body]
    pub(crate) fn next_word(&mut self) -> (r: u64)
        ensures
            r == stream_word(old(self).spec_seed(), old(self).spec_idx()),
            final(self).spec_seed() == old(self).spec_seed(),
            final(self).spec_idx() == old(self).spec_idx() + 1,
            exists|k: nat|
                k >= old(self).spec_idx() && stream_word(old(self).spec_seed(), k)
                    < 0x8000_0000_0000_0000u64,
    {
        rand_core::Rng::next_u64(&mut self.rng)
    }
}

/// Relies on `rand_seeder::Seeder::from` and `Seeder::into_rng`: seeding is
/// SipHash-based and documented as portable and reproducible, so the returned
/// generator state is a function of the seed string alone.
#[verifier::external_body]
fn seeded_rng(seed: &str) -> rand_xoshiro::Xoshiro256PlusPlus {
    rand_seeder::Seeder::from(seed).into_rng()
}

} // verus!

