//! The seeded random source, and uniform draws from its words.
//!
//! Randomness comes from a ChaCha12 generator of the `rand_chacha` crate,
//! which that crate documents as deterministic and portable. The library
//! reads it one 64-bit word at a time and turns each word into a number of a
//! given range itself, so that a seed fixes every draw.
//!
//! What is taken on trust of the generator is written down here and nowhere
//! else: that the words it will give are a function of its state, and that
//! its state after seeding is a function of the seed.

use vstd::prelude::*;
use rand_chacha::rand_core::RngCore;
use rand_chacha::rand_core::SeedableRng;
use rand_chacha::ChaCha12Rng;
use crate::fixed::Fixed;

verus! {

/// The ChaCha12 generator of `rand_chacha`, carried as an opaque value.
#[verifier::external_type_specification]
#[verifier::external_body]
pub struct ExChaCha12Rng(ChaCha12Rng);

/// The 64-bit word that `rng` gives on the call after the next `i` calls,
/// for `i >= 0`.
pub uninterp spec fn upcoming(rng: ChaCha12Rng, i: int) -> u64;

/// The 64-bit word that a ChaCha12 generator made from `seed` gives after
/// `i` earlier ones, for `i >= 0`.
pub uninterp spec fn seeded_word(seed: Seq<u8>, i: int) -> u64;

/// A generator made from a seed, by `ChaCha12Rng::from_seed` (the
/// `SeedableRng` method of `rand_core`).
///
/// Trusted: the words of the new generator are a function of the seed
/// alone, the one that [`seeded_word`] names.
#[verifier::external_body]
pub(crate) fn seeded(seed: [u8; 32]) -> (rng: ChaCha12Rng)
    ensures
        forall|i: int| 0 <= i ==> upcoming(rng, i) == seeded_word(seed@, i),
{
    ChaCha12Rng::from_seed(seed)
}

/// The next 64-bit word of the generator, by `ChaCha12Rng::next_u64` (the
/// `RngCore` method of `rand_core`).
///
/// Trusted: the word is the first of those that [`upcoming`] names for the
/// generator as it was, and the generator is left with the rest of them in
/// their order.
#[verifier::external_body]
pub(crate) fn next_word(rng: &mut ChaCha12Rng) -> (word: u64)
    ensures
        word == upcoming(*old(rng), 0),
        forall|i: int| 0 <= i ==> upcoming(*final(rng), i) == upcoming(*old(rng), i + 1),
{
    rng.next_u64()
}

/// Two to the power 64.
pub open spec fn word_span() -> int {
    0x1_0000_0000_0000_0000
}

/// The point of `[lo, hi]` that lies the fraction `word / 2^64` of the way
/// from `lo` to `hi`; `lo` where the range is empty.
pub open spec fn uniform_raw(word: u64, lo: int, hi: int) -> int {
    if hi <= lo {
        lo
    } else {
        lo + ((hi - lo) * word) / word_span()
    }
}

/// A uniform draw stays within its range.
pub proof fn lemma_uniform_within(word: u64, lo: int, hi: int)
    requires
        lo <= hi,
    ensures
        lo <= uniform_raw(word, lo, hi) <= hi,
        lo < hi ==> uniform_raw(word, lo, hi) < hi,
{
    if lo < hi {
        let span = hi - lo;
        let w = word as int;
        let m = word_span();
        assert(0 <= (span * w) / m < span) by (nonlinear_arith)
            requires
                span > 0,
                0 <= w < m,
                m > 0,
        ;
    }
}

/// The number of `[lo, hi]` that the word `word` selects.
pub fn uniform(word: u64, lo: Fixed, hi: Fixed) -> (r: Fixed)
    ensures
        r@ == uniform_raw(word, lo@, hi@),
        lo@ <= hi@ ==> lo@ <= r@ <= hi@,
{
    if hi.raw <= lo.raw {
        return lo;
    }
    proof {
        lemma_uniform_within(word, lo@, hi@);
    }
    let span: u128 = (hi.raw as i128 - lo.raw as i128) as u128;
    assert(span * word <= 0xffff_ffff_ffff_ffff * 0xffff_ffff_ffff_ffff) by (nonlinear_arith)
        requires
            0 <= span <= 0xffff_ffff_ffff_ffff,
            0 <= word <= 0xffff_ffff_ffff_ffff,
    ;
    let step: u128 = (span * (word as u128)) / 0x1_0000_0000_0000_0000;
    Fixed::from_raw((lo.raw as i128 + step as i128) as i64)
}

} // verus!
