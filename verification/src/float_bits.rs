//! Bit patterns of IEEE-754 single-precision numbers.
//!
//! A pattern is a `u32`: one sign bit, eight exponent bits, twenty-three
//! fraction bits. This module names the fields, classifies a pattern (zero,
//! finite, infinite, NaN) and fixes the one byte layout of a pattern that the
//! crate uses: four bytes, least significant first, on every machine.
use vstd::prelude::*;

verus! {

/// Bit 31: the sign.
pub const SIGN_MASK: u32 = 0x8000_0000;

/// Bits 30 to 23: the biased exponent.
pub const EXPONENT_MASK: u32 = 0x7f80_0000;

/// Bits 22 to 0: the fraction.
pub const FRACTION_MASK: u32 = 0x007f_ffff;

/// Number of fraction bits.
pub const FRACTION_BITS: u32 = 23;

/// The exponent field of an infinity or a NaN.
pub const EXPONENT_ALL_ONES: u32 = 0xff;

/// Whether the sign bit is set.
pub open spec fn sign_bit(bits: u32) -> bool {
    bits & SIGN_MASK != 0
}

/// The biased exponent, `0..=255`.
pub open spec fn exponent_field(bits: u32) -> u32 {
    (bits & EXPONENT_MASK) >> FRACTION_BITS
}

/// The fraction, `0..2^23`.
pub open spec fn fraction_field(bits: u32) -> u32 {
    bits & FRACTION_MASK
}

/// A NaN, quiet or signaling, of either sign: exponent all ones and a
/// fraction that is not zero.
pub open spec fn spec_is_nan(bits: u32) -> bool {
    exponent_field(bits) == EXPONENT_ALL_ONES && fraction_field(bits) != 0
}

/// Plus or minus infinity: exponent all ones and fraction zero.
pub open spec fn is_infinite(bits: u32) -> bool {
    exponent_field(bits) == EXPONENT_ALL_ONES && fraction_field(bits) == 0
}

/// Zero, subnormal or normal: neither an infinity nor a NaN.
pub open spec fn is_finite(bits: u32) -> bool {
    exponent_field(bits) != EXPONENT_ALL_ONES
}

/// Plus or minus zero.
pub open spec fn is_zero(bits: u32) -> bool {
    exponent_field(bits) == 0 && fraction_field(bits) == 0
}

/// The integer significand of a finite pattern. Its magnitude is
/// `significand(bits) * 2^ulp_exponent(bits)`: a normal number carries the
/// implicit leading one, a subnormal does not.
pub open spec fn significand(bits: u32) -> nat
    recommends
        is_finite(bits),
{
    if exponent_field(bits) == 0 {
        fraction_field(bits) as nat
    } else {
        (0x80_0000 + fraction_field(bits)) as nat
    }
}

/// The power of two that one unit in the last place of a finite pattern is
/// worth.
pub open spec fn ulp_exponent(bits: u32) -> int
    recommends
        is_finite(bits),
{
    if exponent_field(bits) == 0 {
        -149
    } else {
        exponent_field(bits) - 150
    }
}

/// The four bytes of a pattern, least significant first.
pub open spec fn le_bytes_of_word(word: u32) -> Seq<u8> {
    seq![
        (word & 0xff) as u8,
        ((word >> 8) & 0xff) as u8,
        ((word >> 16) & 0xff) as u8,
        ((word >> 24) & 0xff) as u8,
    ]
}

/// The pattern that four bytes spell, least significant first.
pub open spec fn word_of_le_bytes(bytes: Seq<u8>) -> u32
    recommends
        bytes.len() == 4,
{
    (bytes[0] as u32) | ((bytes[1] as u32) << 8) | ((bytes[2] as u32) << 16) | ((bytes[3] as u32)
        << 24)
}

/// The fields are within their widths, and the four classes are what their
/// names say: a pattern is finite, infinite or NaN, and exactly one of them;
/// a zero is finite.
pub proof fn lemma_classes(bits: u32)
    ensures
        exponent_field(bits) <= EXPONENT_ALL_ONES,
        fraction_field(bits) <= FRACTION_MASK,
        is_finite(bits) || is_infinite(bits) || spec_is_nan(bits),
        !(is_finite(bits) && is_infinite(bits)),
        !(is_finite(bits) && spec_is_nan(bits)),
        !(is_infinite(bits) && spec_is_nan(bits)),
        is_zero(bits) ==> is_finite(bits),
        is_zero(bits) <==> bits == 0 || bits == SIGN_MASK,
        is_infinite(bits) <==> bits == EXPONENT_MASK || bits == (SIGN_MASK | EXPONENT_MASK),
        spec_is_nan(bits) <==> (bits & !SIGN_MASK) > EXPONENT_MASK,
{
    assert((bits & EXPONENT_MASK) >> FRACTION_BITS <= EXPONENT_ALL_ONES) by (bit_vector);
    assert(bits & FRACTION_MASK <= FRACTION_MASK) by (bit_vector);
    assert(((bits & EXPONENT_MASK) >> FRACTION_BITS == 0 && bits & FRACTION_MASK == 0) <==> (bits
        == 0 || bits == SIGN_MASK)) by (bit_vector);
    assert(((bits & EXPONENT_MASK) >> FRACTION_BITS == EXPONENT_ALL_ONES && bits & FRACTION_MASK
        == 0) <==> (bits == EXPONENT_MASK || bits == (SIGN_MASK | EXPONENT_MASK)))
        by (bit_vector);
    assert(((bits & EXPONENT_MASK) >> FRACTION_BITS == EXPONENT_ALL_ONES && bits & FRACTION_MASK
        != 0) <==> ((bits & !SIGN_MASK) > EXPONENT_MASK)) by (bit_vector);
}

/// Reading back the bytes of a pattern gives the pattern.
pub proof fn lemma_word_round_trip(word: u32)
    ensures
        le_bytes_of_word(word).len() == 4,
        word_of_le_bytes(le_bytes_of_word(word)) == word,
{
    let b0 = (word & 0xff) as u8;
    let b1 = ((word >> 8) & 0xff) as u8;
    let b2 = ((word >> 16) & 0xff) as u8;
    let b3 = ((word >> 24) & 0xff) as u8;
    assert(word == (b0 as u32) | ((b1 as u32) << 8) | ((b2 as u32) << 16) | ((b3 as u32) << 24))
        by (bit_vector)
        requires
            b0 == (word & 0xff) as u8,
            b1 == ((word >> 8) & 0xff) as u8,
            b2 == ((word >> 16) & 0xff) as u8,
            b3 == ((word >> 24) & 0xff) as u8,
    ;
}

/// Spelling out the pattern of four bytes gives those bytes.
pub proof fn lemma_bytes_round_trip(bytes: Seq<u8>)
    requires
        bytes.len() == 4,
    ensures
        le_bytes_of_word(word_of_le_bytes(bytes)) == bytes,
{
    let b0 = bytes[0];
    let b1 = bytes[1];
    let b2 = bytes[2];
    let b3 = bytes[3];
    let word = word_of_le_bytes(bytes);
    assert(b0 == (word & 0xff) as u8 && b1 == ((word >> 8) & 0xff) as u8 && b2 == ((word >> 16)
        & 0xff) as u8 && b3 == ((word >> 24) & 0xff) as u8) by (bit_vector)
        requires
            word == (b0 as u32) | ((b1 as u32) << 8) | ((b2 as u32) << 16) | ((b3 as u32) << 24),
    ;
    assert(le_bytes_of_word(word) =~= bytes);
}

/// Whether `bits` is the pattern of a NaN.
#[verifier::when_used_as_spec(spec_is_nan)]
pub fn is_nan(bits: u32) -> (nan: bool)
    ensures
        nan == spec_is_nan(bits),
{
    assert(((bits & EXPONENT_MASK) >> FRACTION_BITS == EXPONENT_ALL_ONES) <==> (bits
        & EXPONENT_MASK == EXPONENT_MASK)) by (bit_vector);
    (bits & EXPONENT_MASK) == EXPONENT_MASK && (bits & FRACTION_MASK) != 0
}

/// The canonical bytes of a pattern: least significant first, whatever the
/// host's own byte order.
pub fn to_le_bytes(word: u32) -> (bytes: [u8; 4])
    ensures
        bytes@ == le_bytes_of_word(word),
        word_of_le_bytes(bytes@) == word,
{
    let b0: u8 = (word & 0xff) as u8;
    let b1: u8 = ((word >> 8) & 0xff) as u8;
    let b2: u8 = ((word >> 16) & 0xff) as u8;
    let b3: u8 = ((word >> 24) & 0xff) as u8;
    let bytes: [u8; 4] = [b0, b1, b2, b3];
    proof {
        assert(bytes@ =~= le_bytes_of_word(word));
        lemma_word_round_trip(word);
    }
    bytes
}

/// The pattern that four canonical bytes spell. Every four bytes spell one.
pub fn from_le_bytes(bytes: &[u8; 4]) -> (word: u32)
    ensures
        word == word_of_le_bytes(bytes@),
        le_bytes_of_word(word) == bytes@,
{
    proof {
        lemma_bytes_round_trip(bytes@);
    }
    (bytes[0] as u32) | ((bytes[1] as u32) << 8) | ((bytes[2] as u32) << 16) | ((bytes[3] as u32)
        << 24)
}

} // verus!
