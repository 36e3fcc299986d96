//! What it means to set, clear and test one bit of a byte.
//!
//! Bits are numbered from 0, the least significant, to 7.
use vstd::prelude::*;

verus! {

/// Whether bit `n` of `byte` is one.
pub open spec fn bit_is_set(byte: u8, n: u8) -> bool
    recommends
        n < 8,
{
    (byte >> n) & 1 == 1
}

/// `byte` with bit `n` forced to one.
pub open spec fn with_bit_set(byte: u8, n: u8) -> u8
    recommends
        n < 8,
{
    byte | (1u8 << n)
}

/// `byte` with bit `n` forced to zero.
pub open spec fn with_bit_cleared(byte: u8, n: u8) -> u8
    recommends
        n < 8,
{
    byte & !(1u8 << n)
}

/// Setting bit `n` makes that bit one and leaves the other seven as they
/// were.
pub proof fn lemma_set_bit(byte: u8, n: u8, i: u8)
    by (bit_vector)
    requires
        n < 8,
        i < 8,
    ensures
        bit_is_set(with_bit_set(byte, n), i) == (i == n || bit_is_set(byte, i)),
{
}

/// Clearing bit `n` makes that bit zero and leaves the other seven as they
/// were.
pub proof fn lemma_clear_bit(byte: u8, n: u8, i: u8)
    by (bit_vector)
    requires
        n < 8,
        i < 8,
    ensures
        bit_is_set(with_bit_cleared(byte, n), i) == (i != n && bit_is_set(byte, i)),
{
}

/// Testing a bit reads it as the number 0 or 1.
pub proof fn lemma_check_bit(byte: u8, n: u8)
    by (bit_vector)
    requires
        n < 8,
    ensures
        (byte >> n) & 1 == 0 || (byte >> n) & 1 == 1,
{
}

} // verus!
