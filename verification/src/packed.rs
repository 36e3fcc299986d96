//! A single-precision number and one flag in four bytes.
//!
//! [`FP32WithFlag`] owns the four bytes of a bit pattern, least significant
//! first. Bit 0 of the first byte is the flag; the other thirty-one bits are
//! the number. Numbers go in and out as bit patterns (`u32`), so nothing here
//! depends on the host's byte order or on its floating-point unit.
use crate::bit_ops::{
    bit_is_set, lemma_check_bit, lemma_clear_bit, lemma_set_bit, with_bit_cleared, with_bit_set,
};
use crate::codec::{encode, flag_of, lemma_encode, lemma_flag_write, valid_word, value_of, with_flag};
use crate::float_bits::{from_le_bytes, is_nan, spec_is_nan, to_le_bytes, word_of_le_bytes};
use vstd::prelude::*;

verus! {

/// The byte that holds the flag: the least significant one.
pub const SMALL_BYTE: usize = 0;

/// The bit of that byte that is the flag.
pub const FLAG_BIT: u8 = 0;

/// Why a value was not stored.
#[derive(Debug, Clone, Copy, PartialEq, Eq, Structural)]
pub enum PackError {
    /// The value offered is a NaN, which has no packed form.
    InvalidValue,
}

/// A single-precision bit pattern with a flag in its lowest fraction bit.
///
/// The value it carries is never a NaN.
#[derive(Debug, Copy, Clone)]
pub struct FP32WithFlag {
    // The packed word, least significant byte first.
    num_ar: [u8; 4],
}

impl View for FP32WithFlag {
    type V = u32;

    /// The packed word.
    closed spec fn view(&self) -> u32 {
        word_of_le_bytes(self.num_ar@)
    }
}

/// Setting or clearing bit 0 of the first byte sets or clears bit 0 of the
/// word and changes nothing else; testing it reads the word's flag.
proof fn lemma_first_byte_carries_flag(bytes: Seq<u8>)
    requires
        bytes.len() == 4,
    ensures
        word_of_le_bytes(bytes.update(0, with_bit_set(bytes[0], FLAG_BIT))) == with_flag(
            word_of_le_bytes(bytes),
            true,
        ),
        word_of_le_bytes(bytes.update(0, with_bit_cleared(bytes[0], FLAG_BIT))) == with_flag(
            word_of_le_bytes(bytes),
            false,
        ),
        bit_is_set(bytes[0], FLAG_BIT) == flag_of(word_of_le_bytes(bytes)),
{
    let b0 = bytes[0];
    let b1 = bytes[1];
    let b2 = bytes[2];
    let b3 = bytes[3];
    let word = word_of_le_bytes(bytes);
    let set = with_bit_set(b0, FLAG_BIT);
    let cleared = with_bit_cleared(b0, FLAG_BIT);
    assert(((set as u32) | ((b1 as u32) << 8) | ((b2 as u32) << 16) | ((b3 as u32) << 24)) == (word
        | 1u32)) by (bit_vector)
        requires
            word == (b0 as u32) | ((b1 as u32) << 8) | ((b2 as u32) << 16) | ((b3 as u32) << 24),
            set == b0 | (1u8 << 0u8),
    ;
    assert(((cleared as u32) | ((b1 as u32) << 8) | ((b2 as u32) << 16) | ((b3 as u32) << 24))
        == (word & !1u32)) by (bit_vector)
        requires
            word == (b0 as u32) | ((b1 as u32) << 8) | ((b2 as u32) << 16) | ((b3 as u32) << 24),
            cleared == b0 & !(1u8 << 0u8),
    ;
    assert(((b0 >> 0u8) & 1 == 1) == (word & 1u32 == 1u32)) by (bit_vector)
        requires
            word == (b0 as u32) | ((b1 as u32) << 8) | ((b2 as u32) << 16) | ((b3 as u32) << 24),
    ;
}

impl FP32WithFlag {
    /// What every instance satisfies: the value it carries is no NaN.
    #[verifier::type_invariant]
    spec fn inv(&self) -> bool {
        valid_word(self@)
    }

    /// The bit pattern that `get_val` reads.
    pub open spec fn value_bits(&self) -> u32 {
        value_of(self@)
    }

    /// The flag that `get_flag` reads.
    pub open spec fn flag(&self) -> bool {
        flag_of(self@)
    }

    /// Packs the pattern `bits` with `flag`. A NaN is refused.
    pub fn new(bits: u32, flag: bool) -> (r: Result<FP32WithFlag, PackError>)
        ensures
            match r {
                Ok(packed) => {
                    &&& !spec_is_nan(bits)
                    &&& packed@ == encode(bits, flag)
                    &&& packed.flag() == flag
                    &&& packed.value_bits() == value_of(bits)
                },
                Err(e) => spec_is_nan(bits) && e == PackError::InvalidValue,
            },
    {
        if is_nan(bits) {
            return Err(PackError::InvalidValue);
        }
        let mut new_val = to_le_bytes(bits);
        let ghost plain = new_val@;
        if flag {
            new_val[SMALL_BYTE] = Self::set_bit(new_val[SMALL_BYTE], FLAG_BIT);
        } else {
            new_val[SMALL_BYTE] = Self::clear_bit(new_val[SMALL_BYTE], FLAG_BIT);
        }
        proof {
            lemma_first_byte_carries_flag(plain);
            lemma_encode(bits, flag);
        }
        Ok(FP32WithFlag { num_ar: new_val })
    }

    /// The pattern stored, with the flag bit read as zero. The stored bytes
    /// are not touched.
    pub fn get_val(&self) -> (bits: u32)
        ensures
            bits == self.value_bits(),
            !spec_is_nan(bits),
    {
        proof {
            use_type_invariant(self);
            lemma_first_byte_carries_flag(self.num_ar@);
        }
        let mut new_num = self.num_ar;
        new_num[SMALL_BYTE] = Self::clear_bit(new_num[SMALL_BYTE], FLAG_BIT);
        from_le_bytes(&new_num)
    }

    /// Stores the pattern `bits` and keeps the flag. A NaN is refused, and
    /// then nothing changes.
    pub fn set_val(&mut self, bits: u32) -> (r: Result<(), PackError>)
        ensures
            match r {
                Ok(_) => {
                    &&& !spec_is_nan(bits)
                    &&& final(self)@ == encode(bits, old(self).flag())
                    &&& final(self).flag() == old(self).flag()
                    &&& final(self).value_bits() == value_of(bits)
                },
                Err(e) => {
                    &&& spec_is_nan(bits)
                    &&& e == PackError::InvalidValue
                    &&& *final(self) == *old(self)
                },
            },
    {
        if is_nan(bits) {
            return Err(PackError::InvalidValue);
        }
        let mut new_val = to_le_bytes(bits);
        let ghost plain = new_val@;
        let ghost kept = self.flag();
        proof {
            lemma_first_byte_carries_flag(self.num_ar@);
            lemma_first_byte_carries_flag(plain);
            lemma_encode(bits, kept);
        }
        if Self::check_bit(self.num_ar[SMALL_BYTE], FLAG_BIT) == 1 {
            new_val[SMALL_BYTE] = Self::set_bit(new_val[SMALL_BYTE], FLAG_BIT);
        } else {
            new_val[SMALL_BYTE] = Self::clear_bit(new_val[SMALL_BYTE], FLAG_BIT);
        }
        self.num_ar = new_val;
        Ok(())
    }

    /// The flag stored.
    pub fn get_flag(&self) -> (flag: bool)
        ensures
            flag == self.flag(),
    {
        proof {
            lemma_first_byte_carries_flag(self.num_ar@);
        }
        if Self::check_bit(self.num_ar[SMALL_BYTE], FLAG_BIT) == 1 {
            true
        } else {
            false
        }
    }

    /// Stores `flag` and keeps the value.
    pub fn set_flag(&mut self, flag: bool)
        ensures
            final(self)@ == with_flag(old(self)@, flag),
            final(self).flag() == flag,
            final(self).value_bits() == old(self).value_bits(),
    {
        proof {
            use_type_invariant(&*self);
            lemma_first_byte_carries_flag(self.num_ar@);
            lemma_flag_write(self@, flag);
        }
        if flag {
            self.num_ar[SMALL_BYTE] = Self::set_bit(self.num_ar[SMALL_BYTE], FLAG_BIT);
        } else {
            self.num_ar[SMALL_BYTE] = Self::clear_bit(self.num_ar[SMALL_BYTE], FLAG_BIT);
        }
    }

    /// `byte` with bit `n_bit` forced to one: that bit is set, the other
    /// seven are as in `byte`. `n_bit` names one of the eight bits, 0 to 7.
    #[inline(always)]
    pub fn set_bit(byte: u8, n_bit: u8) -> (r: u8)
        requires
            n_bit < 8,
        ensures
            r == with_bit_set(byte, n_bit),
            forall|i: u8| i < 8 ==> #[trigger] bit_is_set(r, i) == (i == n_bit || bit_is_set(byte, i)),
    {
        proof {
            assert forall|i: u8| i < 8 implies #[trigger] bit_is_set(with_bit_set(byte, n_bit), i)
                == (i == n_bit || bit_is_set(byte, i)) by {
                lemma_set_bit(byte, n_bit, i);
            }
        }
        byte | (1u8 << n_bit)
    }

    /// `byte` with bit `n_bit` forced to zero: that bit is clear, the other
    /// seven are as in `byte`. `n_bit` names one of the eight bits, 0 to 7.
    #[inline(always)]
    pub fn clear_bit(byte: u8, n_bit: u8) -> (r: u8)
        requires
            n_bit < 8,
        ensures
            r == with_bit_cleared(byte, n_bit),
            forall|i: u8| i < 8 ==> #[trigger] bit_is_set(r, i) == (i != n_bit && bit_is_set(byte, i)),
    {
        proof {
            assert forall|i: u8| i < 8 implies #[trigger] bit_is_set(
                with_bit_cleared(byte, n_bit),
                i,
            ) == (i != n_bit && bit_is_set(byte, i)) by {
                lemma_clear_bit(byte, n_bit, i);
            }
        }
        byte & !(1u8 << n_bit)
    }

    /// Bit `n_bit` of `byte`, as the number 0 or 1. `n_bit` names one of the
    /// eight bits, 0 to 7.
    #[inline(always)]
    pub fn check_bit(byte: u8, n_bit: u8) -> (r: u8)
        requires
            n_bit < 8,
        ensures
            r == (if bit_is_set(byte, n_bit) { 1u8 } else { 0u8 }),
    {
        proof {
            lemma_check_bit(byte, n_bit);
        }
        (byte >> n_bit) & 1
    }
}

} // verus!
