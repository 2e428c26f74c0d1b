//! Bit positions of the flags in the F register, and helpers to read and
//! write single bits of a byte.

use vstd::prelude::*;

verus! {

/// Carry flag (C).
pub const CARRY: u8 = 0;
/// Add/subtract flag (N): set when the last arithmetic operation was a subtraction.
pub const ADD_SUBTRACT: u8 = 1;
/// Parity/overflow flag (P/V).
pub const PARITY_OVERFLOW: u8 = 2;
/// Half-carry flag (H): carry out of bit 3.
pub const HALF_CARRY: u8 = 4;
/// Zero flag (Z).
pub const ZERO: u8 = 6;
/// Sign flag (S): copy of bit 7 of the result.
pub const SIGN: u8 = 7;

/// Whether bit `index` of `value` is one.
pub open spec fn bit_of(value: u8, index: u8) -> bool {
    (value >> index) & 1u8 == 1u8
}

/// `value` with bit `index` set to `flag` and every other bit unchanged.
pub open spec fn with_bit(value: u8, index: u8, flag: bool) -> u8 {
    if flag {
        value | (1u8 << index)
    } else {
        value & !(1u8 << index)
    }
}

/// Whether every bit that is one in `test` is also one in `value`.
pub fn is_set(value: u8, test: u8) -> (r: bool)
    ensures
        r == (value & test == test),
{
    (value & test) == test
}

/// The same test as [`is_set`] on a 16-bit word.
pub fn is_set_u16(value: u16, test: u16) -> (r: bool)
    ensures
        r == (value & test == test),
{
    (value & test) == test
}

/// Whether bit `index` of `value` is one.
pub fn bit_is_set(value: u8, index: u8) -> (r: bool)
    requires
        index < 8,
    ensures
        r == bit_of(value, index),
{
    let mask: u8 = 1u8 << index;
    let r = is_set(value, mask);
    assert(((value & (1u8 << index)) == (1u8 << index)) == ((value >> index) & 1u8 == 1u8))
        by (bit_vector)
        requires
            index < 8,
    ;
    r
}

/// Whether bit `bit` of `value` is one.
pub fn get_bit(value: u8, bit: u8) -> (r: bool)
    requires
        bit < 8,
    ensures
        r == bit_of(value, bit),
{
    bit_is_set(value, bit)
}

/// `value` with bit `index` set to `flag` and every other bit unchanged.
pub fn set_bit(value: u8, index: u8, flag: bool) -> (r: u8)
    requires
        index < 8,
    ensures
        r == with_bit(value, index, flag),
{
    if flag {
        value | (1u8 << index)
    } else {
        value & !(1u8 << index)
    }
}

/// Writing a bit and reading it back gives what was written, and every
/// other bit keeps its value.
pub proof fn lemma_with_bit(value: u8, index: u8, flag: bool, other: u8)
    requires
        index < 8,
        other < 8,
    ensures
        bit_of(with_bit(value, index, flag), index) == flag,
        other != index ==> bit_of(with_bit(value, index, flag), other) == bit_of(value, other),
{
    assert(bit_of(with_bit(value, index, flag), index) == flag) by (bit_vector)
        requires
            index < 8,
    ;
    assert(other != index ==> bit_of(with_bit(value, index, flag), other) == bit_of(value, other))
        by (bit_vector)
        requires
            index < 8,
            other < 8,
    ;
}

} // verus!
