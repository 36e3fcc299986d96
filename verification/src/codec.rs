//! The packing itself, on 32-bit words.
//!
//! A packed word is a single-precision bit pattern whose lowest fraction bit
//! has been given away to a flag. The other thirty-one bits are the value;
//! read back, the value has that bit at zero. So a pattern whose lowest bit
//! was zero comes back exactly, and one whose lowest bit was one comes back
//! one unit in the last place nearer to zero.
//!
//! The functions here say what each operation of
//! [`FP32WithFlag`](crate::packed::FP32WithFlag) does to the word, and the
//! proof functions say what follows.
use crate::float_bits::{
    exponent_field, fraction_field, is_finite, is_infinite, is_zero, lemma_classes, sign_bit,
    significand, spec_is_nan, ulp_exponent, EXPONENT_MASK, FRACTION_BITS, FRACTION_MASK, SIGN_MASK,
};
use vstd::prelude::*;

verus! {

/// Bit 0 of the word carries the flag.
pub const FLAG_MASK: u32 = 1;

/// The flag a packed word carries.
pub open spec fn flag_of(word: u32) -> bool {
    word & FLAG_MASK == FLAG_MASK
}

/// The value a packed word carries: the word with the flag bit at zero.
pub open spec fn value_of(word: u32) -> u32 {
    word & !FLAG_MASK
}

/// The word with its flag bit made `flag` and its other bits kept.
pub open spec fn with_flag(word: u32, flag: bool) -> u32 {
    if flag {
        word | FLAG_MASK
    } else {
        word & !FLAG_MASK
    }
}

/// The packed word of a pattern and a flag.
pub open spec fn encode(bits: u32, flag: bool) -> u32 {
    with_flag(bits, flag)
}

/// The word after a run of flag writes, first to last.
pub open spec fn with_flags(word: u32, flags: Seq<bool>) -> u32
    decreases flags.len(),
{
    if flags.len() == 0 {
        word
    } else {
        with_flag(with_flags(word, flags.drop_last()), flags.last())
    }
}

/// A word is valid when the value it carries is no NaN. The word itself may
/// look like one: an infinity packed with a set flag does.
pub open spec fn valid_word(word: u32) -> bool {
    !spec_is_nan(value_of(word))
}

/// A packed word is its value and its flag, and nothing else: the value has
/// the flag bit at zero, and putting the flag back gives the word.
pub proof fn lemma_word_is_value_and_flag(word: u32)
    ensures
        value_of(word) & FLAG_MASK == 0,
        with_flag(value_of(word), flag_of(word)) == word,
{
    assert((word & !FLAG_MASK) & FLAG_MASK == 0) by (bit_vector);
    assert((word & FLAG_MASK == FLAG_MASK) ==> ((word & !FLAG_MASK) | FLAG_MASK) == word)
        by (bit_vector);
    assert(!(word & FLAG_MASK == FLAG_MASK) ==> ((word & !FLAG_MASK) & !FLAG_MASK) == word)
        by (bit_vector);
}

/// Writing a flag and reading it gives what was written, whatever the word
/// held before; the value is untouched.
pub proof fn lemma_flag_write(word: u32, flag: bool)
    ensures
        flag_of(with_flag(word, flag)) == flag,
        value_of(with_flag(word, flag)) == value_of(word),
        valid_word(with_flag(word, flag)) == valid_word(word),
{
    assert((word | FLAG_MASK) & FLAG_MASK == FLAG_MASK) by (bit_vector);
    assert((word & !FLAG_MASK) & FLAG_MASK != FLAG_MASK) by (bit_vector);
    assert((word | FLAG_MASK) & !FLAG_MASK == word & !FLAG_MASK) by (bit_vector);
    assert((word & !FLAG_MASK) & !FLAG_MASK == word & !FLAG_MASK) by (bit_vector);
}

/// No run of flag writes changes the value that is read; the flag read
/// after a run that is not empty is the last one written.
pub proof fn lemma_flag_writes_keep_value(word: u32, flags: Seq<bool>)
    ensures
        value_of(with_flags(word, flags)) == value_of(word),
        flags.len() > 0 ==> flag_of(with_flags(word, flags)) == flags.last(),
        flags.len() == 0 ==> with_flags(word, flags) == word,
    decreases flags.len(),
{
    if flags.len() > 0 {
        lemma_flag_writes_keep_value(word, flags.drop_last());
        lemma_flag_write(with_flags(word, flags.drop_last()), flags.last());
    }
}

/// The value read right after packing equals the value read after one more
/// flag write.
pub proof fn lemma_value_independent_of_flag(bits: u32, first: bool, second: bool)
    ensures
        value_of(with_flag(encode(bits, first), second)) == value_of(encode(bits, first)),
        value_of(encode(bits, first)) == value_of(bits),
{
    lemma_flag_write(bits, first);
    lemma_flag_write(encode(bits, first), second);
}

/// Packing reads back the flag it was given and the pattern with its lowest
/// bit at zero. A pattern that is no NaN packs to a valid word, under either
/// flag.
pub proof fn lemma_encode(bits: u32, flag: bool)
    ensures
        flag_of(encode(bits, flag)) == flag,
        value_of(encode(bits, flag)) == value_of(bits),
        !spec_is_nan(bits) ==> valid_word(encode(bits, flag)),
{
    lemma_flag_write(bits, flag);
    lemma_clearing_keeps_class(bits);
}

/// Clearing the lowest bit of a pattern keeps its sign and its exponent, and
/// never makes a NaN of a pattern that was none.
pub proof fn lemma_clearing_keeps_class(bits: u32)
    ensures
        sign_bit(value_of(bits)) == sign_bit(bits),
        exponent_field(value_of(bits)) == exponent_field(bits),
        !spec_is_nan(bits) ==> !spec_is_nan(value_of(bits)),
        is_finite(value_of(bits)) == is_finite(bits),
{
    assert(((bits & !FLAG_MASK) & SIGN_MASK != 0) == (bits & SIGN_MASK != 0)) by (bit_vector);
    assert(((bits & !FLAG_MASK) & EXPONENT_MASK) >> FRACTION_BITS == (bits & EXPONENT_MASK)
        >> FRACTION_BITS) by (bit_vector);
    assert(bits & FRACTION_MASK == 0 ==> (bits & !FLAG_MASK) & FRACTION_MASK == 0)
        by (bit_vector);
}

/// A pattern that is no NaN and whose lowest fraction bit is zero comes back
/// exactly, with the flag it was packed with.
pub proof fn lemma_round_trip_exact(bits: u32, flag: bool)
    requires
        !spec_is_nan(bits),
        bits & FLAG_MASK == 0,
    ensures
        value_of(encode(bits, flag)) == bits,
        flag_of(encode(bits, flag)) == flag,
{
    lemma_encode(bits, flag);
    assert(bits & FLAG_MASK == 0 ==> bits & !FLAG_MASK == bits) by (bit_vector);
}

/// Zeros and infinities of either sign have a zero lowest bit, so they come
/// back exactly, sign included, under either flag.
pub proof fn lemma_round_trip_zero_infinity(bits: u32, flag: bool)
    requires
        is_zero(bits) || is_infinite(bits),
    ensures
        !spec_is_nan(bits),
        bits & FLAG_MASK == 0,
        value_of(encode(bits, flag)) == bits,
        flag_of(encode(bits, flag)) == flag,
{
    assert(bits & FRACTION_MASK == 0 ==> bits & FLAG_MASK == 0) by (bit_vector);
    lemma_round_trip_exact(bits, flag);
}

/// A pattern that is no NaN and whose lowest fraction bit is one does not
/// come back: what comes back is the pattern just below it, of the same sign
/// and exponent, with a significand smaller by one. That is one unit in the
/// last place nearer to zero.
pub proof fn lemma_round_trip_one_ulp(bits: u32, flag: bool)
    requires
        !spec_is_nan(bits),
        bits & FLAG_MASK == FLAG_MASK,
    ensures
        value_of(encode(bits, flag)) != bits,
        value_of(encode(bits, flag)) == bits - 1,
        flag_of(encode(bits, flag)) == flag,
        is_finite(bits),
        is_finite(value_of(encode(bits, flag))),
        sign_bit(value_of(encode(bits, flag))) == sign_bit(bits),
        ulp_exponent(value_of(encode(bits, flag))) == ulp_exponent(bits),
        significand(value_of(encode(bits, flag))) + 1 == significand(bits),
{
    lemma_encode(bits, flag);
    lemma_clearing_keeps_class(bits);
    lemma_classes(bits);
    let value = value_of(bits);
    assert(bits & FLAG_MASK == FLAG_MASK ==> bits & FRACTION_MASK != 0) by (bit_vector);
    assert(bits & FLAG_MASK == FLAG_MASK ==> (bits & !FLAG_MASK) == bits - 1) by (bit_vector);
    assert(bits & FLAG_MASK == FLAG_MASK ==> ((bits & !FLAG_MASK) & FRACTION_MASK) + 1 == bits
        & FRACTION_MASK) by (bit_vector);
    assert(fraction_field(value) + 1 == fraction_field(bits));
}

} // verus!
