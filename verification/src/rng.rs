//! The seeded random sequence of the simulated backend.

use rand::{Rng, SeedableRng};
use rand_chacha::ChaChaRng;
use vstd::prelude::*;

verus! {

/// How many words a ChaCha stream has before it starts over: positions in
/// it are 68-bit numbers.
pub const STREAM_WORDS: u128 = 0x10_0000_0000_0000_0000;

/// The 32-bit word at place `word_pos` of the ChaCha stream (20 rounds,
/// stream number 0) that the 32-byte `seed` selects.
pub uninterp spec fn chacha_word(seed: Seq<u8>, word_pos: nat) -> u32;

/// Calls `ChaChaRng::from_seed`, `ChaChaRng::set_word_pos` and `Rng::gen`
/// of `rand_chacha` and `rand`.
///
/// Trusted, not proved: a generator made from `seed` and moved to
/// `word_pos` gives, as its next `u32`, a value that depends on `seed` and
/// `word_pos` alone. The seed, the stream number (left at 0) and the word
/// position are all that the generator's output depends on.
#[verifier::external_body]
fn chacha_word_at(seed: &[u8; 32], word_pos: u128) -> (word: u32)
    ensures
        word == chacha_word(seed@, word_pos as nat),
{
    let mut rng = ChaChaRng::from_seed(*seed);
    rng.set_word_pos(word_pos);
    rng.gen()
}

/// A reproducible source of random words: a seed and a place in the
/// stream that the seed selects. Two sources with equal seeds that have
/// been drawn from equally often give equal words.
#[derive(Debug)]
pub struct SeededRng {
    seed: [u8; 32],
    word_pos: u128,
}

/// A source as contracts see it.
pub struct SeededRngView {
    pub seed: Seq<u8>,
    pub word_pos: nat,
}

impl View for SeededRng {
    type V = SeededRngView;

    closed spec fn view(&self) -> SeededRngView {
        SeededRngView { seed: self.seed@, word_pos: self.word_pos as nat }
    }
}

impl SeededRngView {
    /// The word that the next draw gives.
    pub open spec fn next_word(self) -> u32 {
        chacha_word(self.seed, self.word_pos)
    }

    /// The source after one draw.
    pub open spec fn step(self) -> SeededRngView {
        SeededRngView {
            seed: self.seed,
            word_pos: if self.word_pos + 1 == STREAM_WORDS {
                0
            } else {
                self.word_pos + 1
            },
        }
    }
}

/// The first `n` words drawn from a source in state `v`, in the order in
/// which they come.
pub open spec fn draws(v: SeededRngView, n: nat) -> Seq<u32>
    decreases n,
{
    if n == 0 {
        Seq::empty()
    } else {
        seq![v.next_word()] + draws(v.step(), (n - 1) as nat)
    }
}

/// Sources with equal seeds at equal places give equal sequences of
/// words, however many are drawn.
pub proof fn lemma_equal_seeds_equal_draws(a: SeededRngView, b: SeededRngView, n: nat)
    requires
        a.seed == b.seed,
        a.word_pos == b.word_pos,
    ensures
        draws(a, n) == draws(b, n),
    decreases n,
{
    if n > 0 {
        lemma_equal_seeds_equal_draws(a.step(), b.step(), (n - 1) as nat);
    }
}

impl SeededRng {
    pub open spec fn wf(&self) -> bool {
        self@.seed.len() == 32 && self@.word_pos < STREAM_WORDS
    }

    /// A source at the start of the stream that `seed` selects.
    pub fn new(seed: [u8; 32]) -> (rng: SeededRng)
        ensures
            rng.wf(),
            rng@ == (SeededRngView { seed: seed@, word_pos: 0 }),
    {
        SeededRng { seed, word_pos: 0 }
    }

    /// Draws the next word of the stream.
    pub fn gen_u32(&mut self) -> (word: u32)
        requires
            old(self).wf(),
        ensures
            final(self).wf(),
            word == old(self)@.next_word(),
            final(self)@ == old(self)@.step(),
    {
        let word = chacha_word_at(&self.seed, self.word_pos);
        if self.word_pos + 1 == STREAM_WORDS {
            self.word_pos = 0;
        } else {
            self.word_pos = self.word_pos + 1;
        }
        word
    }
}

} // verus!
