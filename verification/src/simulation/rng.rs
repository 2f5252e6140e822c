//! The seeded stream of random words from which a population is drawn.

use rand::Rng;
use rand::SeedableRng;
use rand_chacha::ChaCha8Rng;
use vstd::prelude::*;

verus! {

/// `ChaCha8Rng`, the ChaCha generator with eight rounds. What it holds is
/// known only through `upcoming`.
#[verifier::external_type_specification]
#[verifier::external_body]
pub struct ExChaCha8Rng(rand_chacha::ChaCha8Rng);

/// The word that a generator hands out at the `k`-th draw from now, counting
/// from zero.
pub uninterp spec fn upcoming(rng: ChaCha8Rng, k: nat) -> u32;

/// The word that stands at `position` in the stream of the generator seeded
/// with `seed`.
pub uninterp spec fn stream_word(seed: u64, position: nat) -> u32;

/// The words that are yet to come from a generator that stands at `position`
/// in the stream of `seed`.
pub open spec fn stream_from(seed: u64, position: nat) -> spec_fn(nat) -> u32 {
    |k: nat| stream_word(seed, position + k)
}

/// `ChaCha8Rng::seed_from_u64`: a generator at the start of the stream that
/// belongs to `seed`. The stream is a function of the seed alone.
#[verifier::external_body]
pub(crate) fn seeded(seed: u64) -> (rng: ChaCha8Rng)
    ensures
        forall|k: nat| #[trigger] upcoming(rng, k) == stream_word(seed, k),
{
    ChaCha8Rng::seed_from_u64(seed)
}

/// `Rng::gen::<u32>` on a `ChaCha8Rng`: hands out the next word of the
/// generator and moves the generator one word on, so that every later word
/// comes one draw sooner.
#[verifier::external_body]
pub(crate) fn next_word(rng: &mut ChaCha8Rng) -> (word: u32)
    ensures
        word == upcoming(*old(rng), 0),
        forall|k: nat| #[trigger] upcoming(*final(rng), k) == upcoming(*old(rng), k + 1),
{
    rng.gen::<u32>()
}

} // verus!
