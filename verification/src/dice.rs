//! The random stream that a run carries inside its state.
//!
//! A ChaCha8 stream is determined by its seed, its stream number and the
//! position of its next word. The state is kept as those three plain values,
//! so equal states give equal draws.

use rand::{Rng, SeedableRng};
use rand_chacha::ChaCha8Rng;
use vstd::prelude::*;

verus! {

/// A position in a ChaCha8 stream.
#[derive(Clone, Copy, Debug, PartialEq, Eq)]
pub struct Dice {
    pub seed: [u8; 32],
    pub stream: u64,
    /// Offset of the next word from the start of the stream, in 32-bit words.
    pub word_pos: u128,
}

/// The model of [`Dice`].
pub struct DiceModel {
    pub seed: Seq<u8>,
    pub stream: u64,
    pub word_pos: u128,
}

impl View for Dice {
    type V = DiceModel;

    open spec fn view(&self) -> DiceModel {
        DiceModel { seed: self.seed@, stream: self.stream, word_pos: self.word_pos }
    }
}

/// The 32-byte seed that `SeedableRng::seed_from_u64` makes of a number.
pub uninterp spec fn expanded_seed(seed: u64) -> Seq<u8>;

/// What `Rng::gen_range` draws as a `u64` from `low..=high` at a position of a
/// ChaCha8 stream, with the position after the draw.
pub uninterp spec fn drawn_u64(
    seed: Seq<u8>,
    stream: u64,
    word_pos: u128,
    low: u64,
    high: u64,
) -> (u64, u128);

/// What `Rng::gen_range` draws as a `u32` from `low..=high` at a position of a
/// ChaCha8 stream, with the position after the draw.
pub uninterp spec fn drawn_u32(
    seed: Seq<u8>,
    stream: u64,
    word_pos: u128,
    low: u32,
    high: u32,
) -> (u32, u128);

/// The start of the stream of a seed.
pub open spec fn dice_of(seed: u64) -> DiceModel {
    DiceModel { seed: expanded_seed(seed), stream: 0, word_pos: 0 }
}

/// A 64-bit draw from `low..=high`: the value and the stream behind it.
pub open spec fn draw(d: DiceModel, low: u64, high: u64) -> (u64, DiceModel) {
    let r = drawn_u64(d.seed, d.stream, d.word_pos, low, high);
    (r.0, DiceModel { word_pos: r.1, ..d })
}

/// A 32-bit draw from `low..=high`: the value and the stream behind it.
pub open spec fn draw_small(d: DiceModel, low: u32, high: u32) -> (u32, DiceModel) {
    let r = drawn_u32(d.seed, d.stream, d.word_pos, low, high);
    (r.0, DiceModel { word_pos: r.1, ..d })
}

/// A draw of an index from `0..count`, which is as wide as a `usize`: the value
/// and the stream behind it.
pub open spec fn draw_index(d: DiceModel, count: nat) -> (u64, DiceModel) {
    if usize::BITS == 64 {
        draw(d, 0, (count - 1) as u64)
    } else {
        let r = draw_small(d, 0, (count - 1) as u32);
        (r.0 as u64, r.1)
    }
}

/// `ChaCha8Rng::seed_from_u64`: the new generator's seed bytes, which depend
/// on the number alone. Its stream number and its word position are zero.
#[verifier::external_body]
fn chacha_from_u64(seed: u64) -> (r: ([u8; 32], u64, u128))
    ensures
        r.0@ == expanded_seed(seed),
        r.1 == 0,
        r.2 == 0,
{
    let rng = ChaCha8Rng::seed_from_u64(seed);
    (rng.get_seed(), rng.get_stream(), rng.get_word_pos())
}

/// `Rng::gen_range` over a non-empty inclusive range of `u64`, on the
/// ChaCha8 generator at the given position: the value, which lies in the
/// range, and the word position behind it. Both depend on the arguments alone.
#[verifier::external_body]
fn chacha_range_u64(seed: &[u8; 32], stream: u64, word_pos: u128, low: u64, high: u64) -> (r: (
    u64,
    u128,
))
    requires
        low <= high,
    ensures
        r == drawn_u64(seed@, stream, word_pos, low, high),
        low <= r.0 <= high,
{
    let mut rng = ChaCha8Rng::from_seed(*seed);
    rng.set_stream(stream);
    rng.set_word_pos(word_pos);
    let value: u64 = rng.gen_range(low..=high);
    (value, rng.get_word_pos())
}

/// `Rng::gen_range` over a non-empty inclusive range of `u32`, on the
/// ChaCha8 generator at the given position: the value, which lies in the
/// range, and the word position behind it. Both depend on the arguments alone.
#[verifier::external_body]
fn chacha_range_u32(seed: &[u8; 32], stream: u64, word_pos: u128, low: u32, high: u32) -> (r: (
    u32,
    u128,
))
    requires
        low <= high,
    ensures
        r == drawn_u32(seed@, stream, word_pos, low, high),
        low <= r.0 <= high,
{
    let mut rng = ChaCha8Rng::from_seed(*seed);
    rng.set_stream(stream);
    rng.set_word_pos(word_pos);
    let value: u32 = rng.gen_range(low..=high);
    (value, rng.get_word_pos())
}

impl Dice {
    /// The start of the stream of `seed`.
    pub fn seeded(seed: u64) -> (r: Self)
        ensures
            r@ == dice_of(seed),
    {
        let (bytes, stream, word_pos) = chacha_from_u64(seed);
        Dice { seed: bytes, stream, word_pos }
    }

    /// Draws a 64-bit value from `low..=high`. Signed draws are made here too
    /// where their bounds are not negative: the generator gives them the same
    /// values for the same words.
    pub fn between(&mut self, low: u64, high: u64) -> (r: u64)
        requires
            low <= high,
        ensures
            (r, final(self)@) == draw(old(self)@, low, high),
            low <= r <= high,
    {
        let (value, word_pos) = chacha_range_u64(
            &self.seed,
            self.stream,
            self.word_pos,
            low,
            high,
        );
        self.word_pos = word_pos;
        value
    }

    /// Draws a 32-bit value from `low..=high`.
    pub fn between_small(&mut self, low: u32, high: u32) -> (r: u32)
        requires
            low <= high,
        ensures
            (r, final(self)@) == draw_small(old(self)@, low, high),
            low <= r <= high,
    {
        let (value, word_pos) = chacha_range_u32(
            &self.seed,
            self.stream,
            self.word_pos,
            low,
            high,
        );
        self.word_pos = word_pos;
        value
    }

    /// Draws an index from `0..count`. The generator draws it as wide as a
    /// `usize` is on the machine.
    pub fn index(&mut self, count: usize) -> (r: u64)
        requires
            0 < count,
        ensures
            (r, final(self)@) == draw_index(old(self)@, count as nat),
            r < count,
    {
        if usize::BITS == 64 {
            self.between(0, count as u64 - 1)
        } else {
            assert(count <= u32::MAX);
            self.between_small(0, (count - 1) as u32) as u64
        }
    }
}

} // verus!
