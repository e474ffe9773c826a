//! A deterministic randomness source, keyed by a 32-byte seed.

use rand_chacha::ChaCha20Rng;
use rand_core::{RngCore, SeedableRng};
use vstd::prelude::*;

verus! {

#[verifier::external_type_specification]
#[verifier::external_body]
pub struct ExChaCha20Rng(ChaCha20Rng);

/// The seed that a ChaCha20 generator was keyed with.
pub uninterp spec fn chacha_key(r: ChaCha20Rng) -> Seq<u8>;

/// How many 32-bit words of its stream a ChaCha20 generator has used since
/// it was keyed (what `ChaCha20Rng::get_word_pos` reports).
pub uninterp spec fn chacha_pos(r: ChaCha20Rng) -> nat;

/// The bytes that a ChaCha20 generator keyed with `key`, standing at word
/// `pos` of its stream, writes into a buffer of `len` bytes.
pub uninterp spec fn chacha_output(key: Seq<u8>, pos: nat, len: nat) -> Seq<u8>;

/// The number of 32-bit words that a fill of `len` bytes uses.
pub open spec fn words_for(len: nat) -> nat {
    (len + 3) / 4
}

/// Relies on `ChaCha20Rng::from_seed`: a fresh generator keyed with `seed`.
#[verifier::external_body]
fn chacha_from_seed(seed: [u8; 32]) -> (r: ChaCha20Rng)
    ensures
        chacha_key(r) == seed@,
        chacha_pos(r) == 0,
{
    ChaCha20Rng::from_seed(seed)
}

/// Relies on `ChaCha20Rng::fill_bytes`: fills the whole buffer from the
/// generator's stream at its current word, and moves on by one word per four
/// bytes or part of four (an empty buffer uses nothing).
#[verifier::external_body]
fn chacha_fill_bytes(r: &mut ChaCha20Rng, dest: &mut [u8])
    ensures
        final(dest)@.len() == old(dest)@.len(),
        final(dest)@ == chacha_output(chacha_key(*old(r)), chacha_pos(*old(r)), old(dest)@.len()),
        chacha_key(*final(r)) == chacha_key(*old(r)),
        chacha_pos(*final(r)) == chacha_pos(*old(r)) + words_for(old(dest)@.len()),
{
    r.fill_bytes(dest)
}

/// What a randomness source is: unseeded, or keyed with a seed and standing
/// at word `pos` of the stream.
pub ghost enum RandomState {
    Unseeded,
    Seeded { key: Seq<u8>, pos: nat },
}

/// A process's single source of randomness. It must be seeded before the
/// first draw; the same seed and the same sequence of draw lengths give the
/// same bytes.
pub struct RandomSource {
    rng: Option<ChaCha20Rng>,
}

/// The state right after seeding with `seed`, whatever came before.
pub open spec fn seeded(seed: Seq<u8>) -> RandomState {
    RandomState::Seeded { key: seed, pos: 0 }
}

/// What fills of the lengths `lens`, one after another, hand out.
pub open spec fn fill_outputs(s: RandomState, lens: Seq<nat>) -> Seq<Option<Seq<u8>>>
    decreases lens.len(),
{
    if lens.len() == 0 {
        Seq::empty()
    } else {
        seq![fill_output(s, lens[0])] + fill_outputs(after_fill(s, lens[0]), lens.drop_first())
    }
}

/// The state after one fill of `len` bytes.
pub open spec fn after_fill(s: RandomState, len: nat) -> RandomState {
    match s {
        RandomState::Unseeded => RandomState::Unseeded,
        RandomState::Seeded { key, pos } => RandomState::Seeded { key, pos: pos + words_for(len) },
    }
}

/// The bytes that one fill of `len` bytes hands out, if the source is seeded.
pub open spec fn fill_output(s: RandomState, len: nat) -> Option<Seq<u8>> {
    match s {
        RandomState::Unseeded => None,
        RandomState::Seeded { key, pos } => Some(chacha_output(key, pos, len)),
    }
}

impl RandomSource {
    pub closed spec fn view(&self) -> RandomState {
        match self.rng {
            None => RandomState::Unseeded,
            Some(r) => RandomState::Seeded { key: chacha_key(r), pos: chacha_pos(r) },
        }
    }

    /// A source with no seed installed yet.
    pub fn new() -> (r: Self)
        ensures
            r@ == RandomState::Unseeded,
    {
        RandomSource { rng: None }
    }

    /// Installs a generator keyed by `seed`, replacing whatever was there.
    pub fn seed_with(&mut self, seed: [u8; 32])
        ensures
            final(self)@ == seeded(seed@),
    {
        self.rng = Some(chacha_from_seed(seed));
    }

    /// Whether a seed has been installed.
    pub fn is_seeded(&self) -> (r: bool)
        ensures
            r == (self@ != RandomState::Unseeded),
    {
        self.rng.is_some()
    }

    /// Fills `dest` from the generator. Drawing before a seed is installed
    /// is a bug of the caller, ruled out here; `is_seeded` tells.
    pub fn fill(&mut self, dest: &mut [u8])
        requires
            old(self)@ != RandomState::Unseeded,
        ensures
            Some(final(dest)@) == fill_output(old(self)@, old(dest)@.len()),
            final(self)@ == after_fill(old(self)@, old(dest)@.len()),
    {
        match &mut self.rng {
            None => {},
            Some(rng) => chacha_fill_bytes(rng, dest),
        }
    }
}

/// Fills `dest` with bytes from `source`; the platform's entropy call is
/// routed here so that every consumer draws from the seeded stream.
pub fn getrandom(source: &mut RandomSource, dest: &mut [u8])
    requires
        old(source)@ != RandomState::Unseeded,
    ensures
        Some(final(dest)@) == fill_output(old(source)@, old(dest)@.len()),
        final(source)@ == after_fill(old(source)@, old(dest)@.len()),
{
    source.fill(dest)
}

/// The number of words that fills of the lengths `lens` use together.
pub open spec fn words_for_all(lens: Seq<nat>) -> nat
    decreases lens.len(),
{
    if lens.len() == 0 {
        0
    } else {
        words_for(lens[0]) + words_for_all(lens.drop_first())
    }
}

proof fn lemma_fill_outputs(key: Seq<u8>, pos: nat, lens: Seq<nat>)
    ensures
        fill_outputs(RandomState::Seeded { key, pos }, lens).len() == lens.len(),
        forall|i: int| 0 <= i < lens.len() ==> #[trigger] fill_outputs(RandomState::Seeded { key, pos }, lens)[i]
            == Some(chacha_output(key, pos + words_for_all(lens.take(i)), lens[i])),
    decreases lens.len(),
{
    if lens.len() > 0 {
        let rest = lens.drop_first();
        let next = pos + words_for(lens[0]);
        lemma_fill_outputs(key, next, rest);
        let out = fill_outputs(RandomState::Seeded { key, pos }, lens);
        assert forall|i: int| 0 <= i < lens.len() implies #[trigger] out[i]
            == Some(chacha_output(key, pos + words_for_all(lens.take(i)), lens[i])) by {
            if i == 0 {
                assert(words_for_all(lens.take(0)) == 0);
            } else {
                assert(out[i] == fill_outputs(RandomState::Seeded { key, pos: next }, rest)[i - 1]);
                assert(lens.take(i).drop_first() =~= rest.take(i - 1));
                assert(words_for_all(lens.take(i)) == words_for(lens[0]) + words_for_all(rest.take(i - 1)));
            }
        }
    }
}

/// An empty fill uses none of the stream: it leaves the source as it was,
/// so later fills hand out what they would have without it.
pub proof fn empty_fill_changes_nothing(s: RandomState)
    requires
        s != RandomState::Unseeded,
    ensures
        after_fill(s, 0) == s,
{
}

/// Seeding fixes every later fill: after `seed_with(seed)`, fills of the
/// lengths `lens` one after another all succeed, and the `i`-th hands out
/// the generator's bytes for that seed at the word reached by the fills
/// before it. Nothing else about the run, nor what the source held before
/// seeding, has any say.
pub proof fn fills_after_seeding_are_determined(seed: Seq<u8>, lens: Seq<nat>)
    ensures
        fill_outputs(seeded(seed), lens).len() == lens.len(),
        forall|i: int| 0 <= i < lens.len() ==> #[trigger] fill_outputs(seeded(seed), lens)[i]
            == Some(chacha_output(seed, words_for_all(lens.take(i)), lens[i])),
{
    lemma_fill_outputs(seed, 0, lens);
}

} // verus!
