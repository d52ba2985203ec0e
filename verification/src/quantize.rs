//! Quantization arithmetic: carrier frequencies and bitrates, given in hertz,
//! are scaled into register units of `crystal / 2^24` before being written to
//! the chip, then split into bytes most-significant first.
//!
//! The rounding policy is the driver's historical one: truncate the scaled
//! quotient, then round half a unit up to the next integer — in other words,
//! always one more than the truncated quotient.

use vstd::prelude::*;

verus! {

use vstd::arithmetic::div_mod::lemma_div_is_ordered;
use vstd::arithmetic::mul::lemma_mul_inequality;

/// The fixed crystal reference frequency, in hertz.
pub const CRYSTAL_FREQUENCY: u32 = 16_000_000;

/// The scaling factor between hertz and register units: 2^24.
pub const FREQUENCY_SCALE: u64 = 16_777_216;

/// The quantized register value for a frequency of `hertz`: the truncated
/// quotient `hertz * 2^24 / crystal`, rounded half a unit up.
pub open spec fn spec_quantized(hertz: u32) -> int {
    (hertz as int) * (FREQUENCY_SCALE as int) / (CRYSTAL_FREQUENCY as int) + 1
}

/// The 32-bit register word `set_frequency` programs for a carrier of
/// `hertz`, defined where the quantized value fits in 32 bits.
pub open spec fn spec_frequency_word(hertz: u32) -> u32
    recommends
        spec_quantized(hertz) <= u32::MAX,
{
    spec_quantized(hertz) as u32
}

/// The 24-bit register value `set_transmit_bitrate` programs for a bitrate of
/// `hertz`: the quantized value, kept to its low 24 bits.
pub open spec fn spec_bitrate_word(hertz: u32) -> u32 {
    (spec_quantized(hertz) % 0x100_0000) as u32
}

/// Byte `k` (little-endian count, so byte 3 is the most significant) of a
/// 32-bit register word.
pub open spec fn spec_word_byte(word: u32, k: u32) -> u8
    recommends
        k < 4,
{
    ((word >> (8 * k)) & 0xff) as u8
}

/// A 32-bit register word reassembled from its four bytes, most significant
/// first.
pub open spec fn spec_word_from_bytes(b3: u8, b2: u8, b1: u8, b0: u8) -> u32 {
    ((b3 as u32) << 24) | ((b2 as u32) << 16) | ((b1 as u32) << 8) | (b0 as u32)
}

/// The product `hertz * 2^24` stays well inside 64 bits.
proof fn lemma_scale_fits(hertz: u32)
    ensures
        0 <= (hertz as int) * (FREQUENCY_SCALE as int) <= u32::MAX * (FREQUENCY_SCALE as int),
{
    lemma_mul_inequality(hertz as int, u32::MAX as int, FREQUENCY_SCALE as int);
}

/// Compute the quantized register value for `hertz`, as a 64-bit quantity.
fn quantized(hertz: u32) -> (r: u64)
    ensures
        r == spec_quantized(hertz),
{
    proof {
        lemma_scale_fits(hertz);
    }
    let q: u64 = (hertz as u64) * FREQUENCY_SCALE / (CRYSTAL_FREQUENCY as u64);
    q + 1
}

/// The 32-bit register word for a carrier of `hertz`.
pub fn frequency_word(hertz: u32) -> (r: u32)
    requires
        spec_quantized(hertz) <= u32::MAX,
    ensures
        r == spec_frequency_word(hertz),
{
    quantized(hertz) as u32
}

/// The 24-bit bitrate register value for a bitrate of `hertz`.
pub fn bitrate_word(hertz: u32) -> (r: u32)
    ensures
        r == spec_bitrate_word(hertz),
        r < 0x100_0000,
{
    let q: u64 = quantized(hertz);
    let w: u64 = q & 0x00ff_ffff;
    proof {
        assert(q & 0x00ff_ffff == q % 0x100_0000) by (bit_vector);
    }
    w as u32
}

/// Quantization is monotonic: a higher frequency never yields a smaller
/// register value.
pub proof fn lemma_quantized_monotonic(h1: u32, h2: u32)
    requires
        h1 <= h2,
    ensures
        spec_quantized(h1) <= spec_quantized(h2),
{
    lemma_mul_inequality(h1 as int, h2 as int, FREQUENCY_SCALE as int);
    lemma_div_is_ordered(
        (h1 as int) * (FREQUENCY_SCALE as int),
        (h2 as int) * (FREQUENCY_SCALE as int),
        CRYSTAL_FREQUENCY as int,
    );
}

/// Splitting a 32-bit word into four bytes and reassembling them most
/// significant first gives the word back.
pub proof fn lemma_word_bytes_roundtrip(word: u32)
    ensures
        spec_word_from_bytes(
            spec_word_byte(word, 3),
            spec_word_byte(word, 2),
            spec_word_byte(word, 1),
            spec_word_byte(word, 0),
        ) == word,
{
    assert(((((word >> (8 * 3)) & 0xff) as u8 as u32) << 24)
        | ((((word >> (8 * 2)) & 0xff) as u8 as u32) << 16)
        | ((((word >> (8 * 1)) & 0xff) as u8 as u32) << 8)
        | (((word >> (8 * 0)) & 0xff) as u8 as u32) == word) by (bit_vector);
}

/// Extract byte `k` of a 32-bit word (byte 3 is the most significant).
pub fn word_byte(word: u32, k: u32) -> (r: u8)
    requires
        k < 4,
    ensures
        r == spec_word_byte(word, k),
{
    ((word >> (8 * k)) & 0xff) as u8
}

/// Reassemble a 32-bit word from its four bytes, most significant first.
pub fn word_from_bytes(b3: u8, b2: u8, b1: u8, b0: u8) -> (r: u32)
    ensures
        r == spec_word_from_bytes(b3, b2, b1, b0),
{
    ((b3 as u32) << 24) | ((b2 as u32) << 16) | ((b1 as u32) << 8) | (b0 as u32)
}

} // verus!
