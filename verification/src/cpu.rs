//! The interpreter: a processor attached to a bus, executing one instruction
//! per call of [`Cpu::step`].

use vstd::prelude::*;

mod unprefixed;
mod prefixed;
mod indexed;
use crate::bus::Bus;
use crate::flags::{self, bit_is_set, set_bit, bit_of, with_bit};
use crate::machine::{
    Machine, shift_result, rotl8, rotr8, bcd_correction, bcd_half_carry, bcd_carry, carry_in, sum8, add8_flags, difference8, sub8_flags, sum16, add16_flags,
    difference16, sub16_flags, signed8, signed16, displaced, parity_even, lemma_byte_facts, shift_flags, bit_test_flags,
};
use crate::registers::{Registers, high_byte, low_byte, join};
use crate::decode::into_group_and_operands;
use crate::semantics::{
    step_spec, run_spec, runs_supported, supported, shift_opcode_supported,
    extended_opcode_supported, index_opcode_supported,
};

verus! {

pub struct Cpu<B: Bus> {
    pub registers: Registers,
    pub bus: B,
}

/// `addend` moved by the signed displacement `signed_augend`, wrapping around
/// the address space.
pub fn wrapping_offset_u16(addend: u16, signed_augend: u8) -> (r: u16)
    ensures
        r == displaced(addend, signed_augend),
{
    if signed_augend < 128 {
        addend.wrapping_add(signed_augend as u16)
    } else {
        addend.wrapping_sub(256 - signed_augend as u16)
    }
}

/// Whether a byte has an even number of one bits.
pub fn has_even_parity(value: u8) -> (r: bool)
    ensures
        r == parity_even(value),
{
    proof {
        lemma_byte_facts();
    }
    let count: u8 = (value & 1) + ((value >> 1) & 1) + ((value >> 2) & 1) + ((value >> 3) & 1) + ((
    value >> 4) & 1) + ((value >> 5) & 1) + ((value >> 6) & 1) + ((value >> 7) & 1);
    count % 2 == 0
}

/// The sign rule for an 8-bit sum is signed overflow.
proof fn lemma_add8_overflow(augend: u8, addend: u8, carry: int)
    requires
        0 <= carry <= 1,
    ensures
        ({
            let sum = sum8(augend, addend, carry);
            let signed = signed8(augend) + signed8(addend) + carry;
            ((augend >= 128) == (addend >= 128) && (sum >= 128) != (augend >= 128)) == (signed
                < -128 || signed > 127)
        }),
{
}

/// The sign rule for an 8-bit difference is signed overflow.
proof fn lemma_sub8_overflow(minuend: u8, subtrahend: u8, borrow: int)
    requires
        0 <= borrow <= 1,
    ensures
        ({
            let difference = difference8(minuend, subtrahend, borrow);
            let signed = signed8(minuend) - signed8(subtrahend) - borrow;
            ((minuend >= 128) != (subtrahend >= 128) && (difference >= 128) != (minuend >= 128))
                == (signed < -128 || signed > 127)
        }),
{
}

/// The sign rule for a 16-bit difference is signed overflow.
proof fn lemma_sub16_overflow(minuend: u16, subtrahend: u16, borrow: int)
    requires
        0 <= borrow <= 1,
    ensures
        ({
            let difference = difference16(minuend, subtrahend, borrow);
            let signed = signed16(minuend) - signed16(subtrahend) - borrow;
            ((minuend >= 32768) != (subtrahend >= 32768) && (difference >= 32768) != (minuend
                >= 32768)) == (signed < -32768 || signed > 32767)
        }),
{
}

/// The sign rule for a 16-bit sum is signed overflow.
pub(crate) proof fn lemma_add16_overflow(augend: u16, addend: u16, carry: int)
    requires
        0 <= carry <= 1,
    ensures
        ({
            let sum = sum16(augend, addend, carry);
            let signed = signed16(augend) + signed16(addend) + carry;
            ((augend >= 32768) == (addend >= 32768) && (sum >= 32768) != (augend >= 32768)) == (
            signed < -32768 || signed > 32767)
        }),
{
}

impl<B: Bus> Cpu<B> {
    /// The model of this processor and its bus.
    pub open spec fn machine(&self) -> Machine {
        Machine { regs: self.registers, memory: self.bus.memory(), ports: self.bus.ports() }
    }

    pub fn new(registers: Registers, bus: B) -> (r: Self)
        ensures
            r.registers == registers,
            r.bus == bus,
    {
        Self { registers, bus }
    }

    /// Moves past one opcode byte: the program counter and the refresh
    /// register count up.
    pub fn advance(&mut self)
        ensures
            final(self).machine() == old(self).machine().advance(),
    {
        self.registers.increment_pc();
        self.registers.increment_r();
    }

    /// Reads the operand that a three-bit register field names.
    pub fn read_indexed_register(&mut self, index: u8) -> (value: u8)
        requires
            index < 8,
        ensures
            value == old(self).machine().reg8(index),
            final(self).machine() == old(self).machine(),
    {
        match index {
            0 => self.registers.b,
            1 => self.registers.c,
            2 => self.registers.d,
            3 => self.registers.e,
            4 => self.registers.h,
            5 => self.registers.l,
            6 => {
                let address = self.registers.hl();
                self.bus.read8(address)
            },
            _ => self.registers.a,
        }
    }

    /// Writes the operand that a three-bit register field names.
    pub fn write_indexed_register(&mut self, index: u8, value: u8)
        requires
            index < 8,
        ensures
            final(self).machine() == old(self).machine().set_reg8(index, value),
    {
        match index {
            0 => self.registers.b = value,
            1 => self.registers.c = value,
            2 => self.registers.d = value,
            3 => self.registers.e = value,
            4 => self.registers.h = value,
            5 => self.registers.l = value,
            6 => {
                let address = self.registers.hl();
                self.bus.write8(address, value)
            },
            _ => self.registers.a = value,
        }
    }

    /// Adds two bytes and the carry flag when `use_carry` is set; sets the
    /// flags as an 8-bit addition does and returns the sum.
    pub fn add_u8_and_set_flags(&mut self, augend: u8, addend: u8, use_carry: bool) -> (sum: u8)
        ensures
            sum == sum8(augend, addend, carry_in(old(self).registers.f, use_carry)),
            final(self).machine() == old(self).machine().set_f(
                add8_flags(
                    old(self).registers.f,
                    augend,
                    addend,
                    carry_in(old(self).registers.f, use_carry),
                ),
            ),
    {
        let carry_in: u8 = if use_carry && bit_is_set(self.registers.f, flags::CARRY) {
            1
        } else {
            0
        };
        let full: u16 = augend as u16 + addend as u16 + carry_in as u16;
        let sum: u8 = (full % 256) as u8;
        let overflow = (augend >= 128) == (addend >= 128) && (sum >= 128) != (augend >= 128);
        let half_carry = augend % 16 + addend % 16 + carry_in > 15;
        proof {
            lemma_add8_overflow(augend, addend, carry_in as int);
        }
        let mut f = self.registers.f;
        f = set_bit(f, flags::CARRY, full > 0xFF);
        f = set_bit(f, flags::ADD_SUBTRACT, false);
        f = set_bit(f, flags::PARITY_OVERFLOW, overflow);
        f = set_bit(f, flags::HALF_CARRY, half_carry);
        f = set_bit(f, flags::ZERO, sum == 0);
        f = set_bit(f, flags::SIGN, sum >= 128);
        self.registers.f = f;
        sum
    }

    /// Adds the operands that two register fields name; see
    /// [`Cpu::add_u8_and_set_flags`].
    pub fn add_u8_by_index_and_set_flags(
        &mut self,
        augend_index: u8,
        addend_index: u8,
        use_carry: bool,
    ) -> (sum: u8)
        requires
            augend_index < 8,
            addend_index < 8,
        ensures
            sum == sum8(
                old(self).machine().reg8(augend_index),
                old(self).machine().reg8(addend_index),
                carry_in(old(self).registers.f, use_carry),
            ),
            final(self).machine() == old(self).machine().set_f(
                add8_flags(
                    old(self).registers.f,
                    old(self).machine().reg8(augend_index),
                    old(self).machine().reg8(addend_index),
                    carry_in(old(self).registers.f, use_carry),
                ),
            ),
    {
        let augend = self.read_indexed_register(augend_index);
        let addend = self.read_indexed_register(addend_index);
        self.add_u8_and_set_flags(augend, addend, use_carry)
    }

    /// Adds two words and the carry flag when `use_carry` is set; sets C, N
    /// and H as a 16-bit addition does and returns the sum.
    pub fn add_u16_and_set_flags(&mut self, augend: u16, addend: u16, use_carry: bool) -> (sum:
        u16)
        ensures
            sum == sum16(augend, addend, carry_in(old(self).registers.f, use_carry)),
            final(self).machine() == old(self).machine().set_f(
                add16_flags(
                    old(self).registers.f,
                    augend,
                    addend,
                    carry_in(old(self).registers.f, use_carry),
                ),
            ),
    {
        let carry_in: u32 = if use_carry && bit_is_set(self.registers.f, flags::CARRY) {
            1
        } else {
            0
        };
        let full: u32 = augend as u32 + addend as u32 + carry_in;
        let sum: u16 = (full % 65536) as u16;
        let half_carry = (augend % 4096) as u32 + (addend % 4096) as u32 + carry_in > 4095;
        let mut f = self.registers.f;
        f = set_bit(f, flags::CARRY, full > 0xFFFF);
        f = set_bit(f, flags::ADD_SUBTRACT, false);
        f = set_bit(f, flags::HALF_CARRY, half_carry);
        self.registers.f = f;
        sum
    }

    /// Subtracts `subtrahend` and the carry flag when `use_borrow` is set;
    /// sets the flags as an 8-bit subtraction does and returns the difference.
    pub fn subtract_u8_and_set_flags(&mut self, minuend: u8, subtrahend: u8, use_borrow: bool) -> (difference: u8)
        ensures
            difference == difference8(
                minuend,
                subtrahend,
                carry_in(old(self).registers.f, use_borrow),
            ),
            final(self).machine() == old(self).machine().set_f(
                sub8_flags(
                    old(self).registers.f,
                    minuend,
                    subtrahend,
                    carry_in(old(self).registers.f, use_borrow),
                ),
            ),
    {
        let borrow_in: u8 = if use_borrow && bit_is_set(self.registers.f, flags::CARRY) {
            1
        } else {
            0
        };
        let full: u16 = (minuend as u16 + 512).wrapping_sub(subtrahend as u16 + borrow_in as u16);
        let difference: u8 = (full % 256) as u8;
        let overflow = (minuend >= 128) != (subtrahend >= 128) && (difference >= 128) != (minuend
            >= 128);
        let half_carry = minuend % 16 < subtrahend % 16 + borrow_in;
        proof {
            lemma_sub8_overflow(minuend, subtrahend, borrow_in as int);
        }
        let mut f = self.registers.f;
        f = set_bit(f, flags::CARRY, (minuend as u16) < subtrahend as u16 + borrow_in as u16);
        f = set_bit(f, flags::ADD_SUBTRACT, true);
        f = set_bit(f, flags::PARITY_OVERFLOW, overflow);
        f = set_bit(f, flags::HALF_CARRY, half_carry);
        f = set_bit(f, flags::ZERO, difference == 0);
        f = set_bit(f, flags::SIGN, difference >= 128);
        self.registers.f = f;
        difference
    }

    /// Subtracts `subtrahend` and the carry flag when `use_borrow` is set;
    /// sets the flags as a 16-bit subtraction does and returns the difference.
    pub fn subtract_u16_and_set_flags(&mut self, minuend: u16, subtrahend: u16, use_borrow: bool) -> (difference: u16)
        ensures
            difference == difference16(
                minuend,
                subtrahend,
                carry_in(old(self).registers.f, use_borrow),
            ),
            final(self).machine() == old(self).machine().set_f(
                sub16_flags(
                    old(self).registers.f,
                    minuend,
                    subtrahend,
                    carry_in(old(self).registers.f, use_borrow),
                ),
            ),
    {
        let borrow_in: u16 = if use_borrow && bit_is_set(self.registers.f, flags::CARRY) {
            1
        } else {
            0
        };
        let full: u32 = (minuend as u32 + 131072).wrapping_sub(subtrahend as u32 + borrow_in as u32);
        let difference: u16 = (full % 65536) as u16;
        let overflow = (minuend >= 32768) != (subtrahend >= 32768) && (difference >= 32768) != (
        minuend >= 32768);
        let half_carry = minuend % 4096 < subtrahend % 4096 + borrow_in;
        proof {
            lemma_sub16_overflow(minuend, subtrahend, borrow_in as int);
        }
        let mut f = self.registers.f;
        f = set_bit(f, flags::CARRY, (minuend as u32) < subtrahend as u32 + borrow_in as u32);
        f = set_bit(f, flags::ADD_SUBTRACT, true);
        f = set_bit(f, flags::PARITY_OVERFLOW, overflow);
        f = set_bit(f, flags::HALF_CARRY, half_carry);
        f = set_bit(f, flags::ZERO, difference == 0);
        f = set_bit(f, flags::SIGN, difference >= 32768);
        self.registers.f = f;
        difference
    }

    /// Subtracts the operands that two register fields name; see
    /// [`Cpu::subtract_u8_and_set_flags`].
    pub fn subtract_u8_by_index_and_set_flags(
        &mut self,
        minuend_index: u8,
        subtrahend_index: u8,
        use_carry: bool,
    ) -> (difference: u8)
        requires
            minuend_index < 8,
            subtrahend_index < 8,
        ensures
            difference == difference8(
                old(self).machine().reg8(minuend_index),
                old(self).machine().reg8(subtrahend_index),
                carry_in(old(self).registers.f, use_carry),
            ),
            final(self).machine() == old(self).machine().set_f(
                sub8_flags(
                    old(self).registers.f,
                    old(self).machine().reg8(minuend_index),
                    old(self).machine().reg8(subtrahend_index),
                    carry_in(old(self).registers.f, use_carry),
                ),
            ),
    {
        let minuend = self.read_indexed_register(minuend_index);
        let subtrahend = self.read_indexed_register(subtrahend_index);
        self.subtract_u8_and_set_flags(minuend, subtrahend, use_carry)
    }
}

impl<B: Bus> Cpu<B> {
    /// Sets the flags after a rotation of the accumulator.
    pub fn set_rotate_flags(&mut self, new_carry: bool)
        ensures
            final(self).machine() == old(self).machine().rotate_flags(new_carry),
    {
        let mut f = self.registers.f;
        f = set_bit(f, flags::CARRY, new_carry);
        f = set_bit(f, flags::HALF_CARRY, false);
        f = set_bit(f, flags::ADD_SUBTRACT, false);
        self.registers.f = f;
    }

    /// Sets Z and S from `value`.
    pub fn set_zero_and_sign_flags_for_u8(&mut self, value: u8)
        ensures
            final(self).machine() == old(self).machine().set_f(
                with_bit(with_bit(old(self).registers.f, flags::ZERO, value == 0), flags::SIGN, value >= 128),
            ),
    {
        let mut f = self.registers.f;
        f = set_bit(f, flags::ZERO, value == 0);
        f = set_bit(f, flags::SIGN, value >= 128);
        self.registers.f = f;
    }

    /// Sets the flags that a logical operation with result `value` sets
    /// (all but H).
    pub fn set_boolean_operator_flags(&mut self, value: u8)
        ensures
            final(self).machine() == old(self).machine().set_f(
                with_bit(
                    with_bit(
                        with_bit(
                            with_bit(with_bit(old(self).registers.f, flags::ZERO, value == 0), flags::SIGN, value >= 128),
                            flags::CARRY,
                            false,
                        ),
                        flags::ADD_SUBTRACT,
                        false,
                    ),
                    flags::PARITY_OVERFLOW,
                    parity_even(value),
                ),
            ),
    {
        self.set_zero_and_sign_flags_for_u8(value);
        let mut f = self.registers.f;
        f = set_bit(f, flags::CARRY, false);
        f = set_bit(f, flags::ADD_SUBTRACT, false);
        f = set_bit(f, flags::PARITY_OVERFLOW, has_even_parity(value));
        self.registers.f = f;
    }

    /// Sets the flags of a logical operation with result `value` and H as
    /// given.
    fn set_logic_flags(&mut self, value: u8, half_carry: bool)
        ensures
            final(self).machine() == old(self).machine().logic_flags(value, half_carry),
    {
        self.set_boolean_operator_flags(value);
        self.registers.f = set_bit(self.registers.f, flags::HALF_CARRY, half_carry);
    }

    /// Reads the byte at the program counter and moves past it.
    pub fn read_and_advance(&mut self) -> (value: u8)
        ensures
            (value, final(self).machine()) == old(self).machine().fetch(),
    {
        let result = self.bus.read8(self.registers.pc);
        self.registers.increment_pc();
        result
    }

    /// Reads the little-endian word at the program counter and moves past it.
    pub fn read_16_and_advance(&mut self) -> (value: u16)
        ensures
            (value, final(self).machine()) == old(self).machine().fetch16(),
    {
        let low_byte = self.read_and_advance();
        let high_byte = self.read_and_advance();
        join(high_byte, low_byte)
    }

    /// Pushes a word: the stack pointer moves down by two and the word is
    /// stored there, low byte first.
    pub fn stack_push(&mut self, value: u16)
        ensures
            final(self).machine() == ({
                let m = old(self).machine();
                let sp = m.regs.sp.wrapping_sub(2);
                m.set_sp(sp).write(sp, low_byte(value)).write(sp.wrapping_add(1), high_byte(value))
            }),
    {
        let (high_byte, low_byte) = crate::registers::split(value);
        self.registers.sp = self.registers.sp.wrapping_sub(2);
        self.bus.write8(self.registers.sp, low_byte);
        self.bus.write8(self.registers.sp.wrapping_add(1), high_byte);
    }

    /// Pushes the program counter and jumps to `address`.
    pub fn call(&mut self, address: u16)
        ensures
            final(self).machine() == old(self).machine().call(address),
    {
        self.stack_push(self.registers.pc);
        self.registers.pc = address;
    }

    /// Pops the program counter from the stack.
    pub fn ret(&mut self)
        ensures
            final(self).machine() == old(self).machine().ret(),
    {
        let low_byte = self.bus.read8(self.registers.sp);
        let high_byte = self.bus.read8(self.registers.sp.wrapping_add(1));
        self.registers.sp = self.registers.sp.wrapping_add(2);
        self.registers.pc = join(high_byte, low_byte);
    }

    /// The correction that DAA applies to the accumulator.
    pub fn bcd_difference(&mut self) -> (r: u8)
        ensures
            r == bcd_correction(old(self).registers.a, old(self).registers.f),
            final(self).machine() == old(self).machine(),
    {
        let had_carry = bit_is_set(self.registers.f, flags::CARRY);
        let had_half_carry = bit_is_set(self.registers.f, flags::HALF_CARRY);
        let a = self.registers.a;
        let low = a % 16;
        let low_diff: u8 = if had_half_carry || low >= 10 {
            0x06
        } else {
            0x00
        };
        let high_diff: u8 = if had_carry || a > 0x99 {
            0x60
        } else {
            0x00
        };
        low_diff + high_diff
    }

    /// The half-carry flag that DAA leaves.
    pub fn bcd_new_half_carry(&self) -> (r: bool)
        ensures
            r == bcd_half_carry(self.registers.a, self.registers.f),
    {
        let had_half_carry = bit_is_set(self.registers.f, flags::HALF_CARRY);
        let low = self.registers.a % 16;
        if bit_is_set(self.registers.f, flags::ADD_SUBTRACT) {
            had_half_carry && low <= 5
        } else {
            !had_half_carry && low >= 0xA
        }
    }

    /// The carry flag that DAA leaves.
    pub fn bcd_new_carry(&self) -> (r: bool)
        ensures
            r == bcd_carry(self.registers.a, self.registers.f),
    {
        let had_carry = bit_is_set(self.registers.f, flags::CARRY);
        had_carry || self.registers.a > 0x99
    }

    /// Performs the shift or rotation that `operation` selects on `value`,
    /// sets the flags accordingly and returns the result.
    pub(crate) fn shift_and_set_flags(&mut self, operation: u8, value: u8) -> (r: u8)
        requires
            operation < 8,
            operation != 6,
        ensures
            ({
                let (result, carry) = shift_result(operation, value, old(self).machine().flag(flags::CARRY));
                &&& r == result
                &&& final(self).machine() == old(self).machine().set_f(shift_flags(old(self).registers.f, result, carry))
            }),
    {
        let carry_flag = bit_is_set(self.registers.f, flags::CARRY);
        let (result, carry): (u8, bool) = match operation {
            0 => ((value << 1u8) | (value >> 7u8), bit_is_set(value, 7)),
            1 => ((value >> 1u8) | (value << 7u8), bit_is_set(value, 0)),
            2 => ((value << 1u8) | (if carry_flag { 1u8 } else { 0u8 }), bit_is_set(value, 7)),
            3 => ((value >> 1u8) | (if carry_flag { 0x80u8 } else { 0u8 }), bit_is_set(value, 0)),
            4 => (value << 1u8, bit_is_set(value, 7)),
            5 => ((value >> 1u8) | (value & 0x80u8), bit_is_set(value, 0)),
            _ => (value >> 1u8, bit_is_set(value, 0)),
        };
        let mut f = self.registers.f;
        f = set_bit(f, flags::SIGN, bit_is_set(result, 7));
        f = set_bit(f, flags::ZERO, result == 0);
        f = set_bit(f, flags::HALF_CARRY, false);
        f = set_bit(f, flags::PARITY_OVERFLOW, has_even_parity(result));
        f = set_bit(f, flags::ADD_SUBTRACT, false);
        f = set_bit(f, flags::CARRY, carry);
        self.registers.f = f;
        result
    }

    /// Shifts or rotates `value`, stores the result at `address`, sets the
    /// flags and returns the result.
    pub(crate) fn shift_and_store(&mut self, operation: u8, value: u8, address: u16) -> (r: u8)
        requires
            operation < 8,
            operation != 6,
        ensures
            ({
                let (result, carry) = shift_result(operation, value, old(self).machine().flag(flags::CARRY));
                &&& r == result
                &&& final(self).machine() == old(self).machine().write(address, result).set_f(
                    shift_flags(old(self).registers.f, result, carry),
                )
            }),
    {
        let result = self.shift_and_set_flags(operation, value);
        self.bus.write8(address, result);
        result
    }

    /// RLC on a byte of memory.
    pub fn rlc_and_store(&mut self, value: u8, address: u16) -> (r: u8)
        ensures
            r == rotl8(value),
            final(self).machine() == old(self).machine().write(address, r).set_f(
                shift_flags(old(self).registers.f, r, bit_of(value, 7)),
            ),
    {
        self.shift_and_store(0, value, address)
    }

    /// RRC on a byte of memory.
    pub fn rrc_and_store(&mut self, value: u8, address: u16) -> (r: u8)
        ensures
            r == rotr8(value),
            final(self).machine() == old(self).machine().write(address, r).set_f(
                shift_flags(old(self).registers.f, r, bit_of(value, 0)),
            ),
    {
        self.shift_and_store(1, value, address)
    }

    /// RL (rotate through carry) on a byte of memory.
    pub fn rl_and_store(&mut self, value: u8, address: u16) -> (r: u8)
        ensures
            r == (value << 1u8) | (if old(self).machine().flag(flags::CARRY) { 1u8 } else { 0u8 }),
            final(self).machine() == old(self).machine().write(address, r).set_f(
                shift_flags(old(self).registers.f, r, bit_of(value, 7)),
            ),
    {
        self.shift_and_store(2, value, address)
    }

    /// RR (rotate through carry) on a byte of memory.
    pub fn rr_and_store(&mut self, value: u8, address: u16) -> (r: u8)
        ensures
            r == (value >> 1u8) | (if old(self).machine().flag(flags::CARRY) { 0x80u8 } else { 0u8 }),
            final(self).machine() == old(self).machine().write(address, r).set_f(
                shift_flags(old(self).registers.f, r, bit_of(value, 0)),
            ),
    {
        self.shift_and_store(3, value, address)
    }

    /// SLA on a byte of memory.
    pub fn sla_and_store(&mut self, value: u8, address: u16) -> (r: u8)
        ensures
            r == value << 1u8,
            final(self).machine() == old(self).machine().write(address, r).set_f(
                shift_flags(old(self).registers.f, r, bit_of(value, 7)),
            ),
    {
        self.shift_and_store(4, value, address)
    }

    /// SRA (bit 7 kept) on a byte of memory.
    pub fn sra_and_store(&mut self, value: u8, address: u16) -> (r: u8)
        ensures
            r == (value >> 1u8) | (value & 0x80u8),
            final(self).machine() == old(self).machine().write(address, r).set_f(
                shift_flags(old(self).registers.f, r, bit_of(value, 0)),
            ),
    {
        self.shift_and_store(5, value, address)
    }

    /// SRL on a byte of memory.
    pub fn srl_and_store(&mut self, value: u8, address: u16) -> (r: u8)
        ensures
            r == value >> 1u8,
            final(self).machine() == old(self).machine().write(address, r).set_f(
                shift_flags(old(self).registers.f, r, bit_of(value, 0)),
            ),
    {
        self.shift_and_store(7, value, address)
    }

    /// BIT: tests bit `index` of `value`. Z and P/V are set when the bit is
    /// zero, S when it is one; H is set and N cleared. Returns `value`.
    pub fn bit(&mut self, value: u8, index: u8) -> (r: u8)
        requires
            index < 8,
        ensures
            r == value,
            final(self).machine() == old(self).machine().set_f(bit_test_flags(old(self).registers.f, value, index)),
    {
        let is_set = bit_is_set(value, index);
        let mut f = self.registers.f;
        f = set_bit(f, flags::SIGN, is_set);
        f = set_bit(f, flags::ZERO, !is_set);
        f = set_bit(f, flags::HALF_CARRY, true);
        f = set_bit(f, flags::PARITY_OVERFLOW, !is_set);
        f = set_bit(f, flags::ADD_SUBTRACT, false);
        self.registers.f = f;
        value
    }

    /// RES: clears bit `index` of `value`, stores the result at `address`
    /// and returns it.
    pub fn res_and_store(&mut self, value: u8, index: u8, address: u16) -> (r: u8)
        requires
            index < 8,
        ensures
            r == with_bit(value, index, false),
            final(self).machine() == old(self).machine().write(address, r),
    {
        let value = set_bit(value, index, false);
        self.bus.write8(address, value);
        value
    }

    /// SET: sets bit `index` of `value`, stores the result at `address` and
    /// returns it.
    pub fn set_and_store(&mut self, value: u8, index: u8, address: u16) -> (r: u8)
        requires
            index < 8,
        ensures
            r == with_bit(value, index, true),
            final(self).machine() == old(self).machine().write(address, r),
    {
        let value = set_bit(value, index, true);
        self.bus.write8(address, value);
        value
    }

    /// LDI: copies the byte at HL to DE, counts HL and DE up and BC down.
    pub fn ldi(&mut self)
        ensures
            final(self).machine() == old(self).machine().block_load(true),
    {
        let value = self.bus.read8(self.registers.hl());
        self.bus.write8(self.registers.de(), value);
        self.registers.set_hl(self.registers.hl().wrapping_add(1));
        self.registers.set_de(self.registers.de().wrapping_add(1));
        self.registers.set_bc(self.registers.bc().wrapping_sub(1));
        self.set_block_load_flags();
    }

    /// LDD: copies the byte at HL to DE, counts HL, DE and BC down.
    pub fn ldd(&mut self)
        ensures
            final(self).machine() == old(self).machine().block_load(false),
    {
        let value = self.bus.read8(self.registers.hl());
        self.bus.write8(self.registers.de(), value);
        self.registers.set_hl(self.registers.hl().wrapping_sub(1));
        self.registers.set_de(self.registers.de().wrapping_sub(1));
        self.registers.set_bc(self.registers.bc().wrapping_sub(1));
        self.set_block_load_flags();
    }

    fn set_block_load_flags(&mut self)
        ensures
            final(self).machine() == old(self).machine().set_f(
                with_bit(
                    with_bit(with_bit(old(self).registers.f, flags::HALF_CARRY, false), flags::PARITY_OVERFLOW, old(self).machine().bc() != 0),
                    flags::ADD_SUBTRACT,
                    false,
                ),
            ),
    {
        let mut f = self.registers.f;
        f = set_bit(f, flags::HALF_CARRY, false);
        f = set_bit(f, flags::PARITY_OVERFLOW, self.registers.bc() != 0);
        f = set_bit(f, flags::ADD_SUBTRACT, false);
        self.registers.f = f;
    }

    /// CPI: compares A with the byte at HL, counts HL up and BC down.
    pub fn cpi(&mut self)
        ensures
            final(self).machine() == old(self).machine().block_compare(true),
    {
        self.block_compare(true);
    }

    /// CPD: compares A with the byte at HL, counts HL and BC down.
    pub fn cpd(&mut self)
        ensures
            final(self).machine() == old(self).machine().block_compare(false),
    {
        self.block_compare(false);
    }

    fn block_compare(&mut self, forward: bool)
        ensures
            final(self).machine() == old(self).machine().block_compare(forward),
    {
        let value = self.bus.read8(self.registers.hl());
        let difference = self.registers.a.wrapping_sub(value);
        if forward {
            self.registers.set_hl(self.registers.hl().wrapping_add(1));
        } else {
            self.registers.set_hl(self.registers.hl().wrapping_sub(1));
        }
        self.registers.set_bc(self.registers.bc().wrapping_sub(1));
        let mut f = self.registers.f;
        f = set_bit(f, flags::SIGN, bit_is_set(difference, 7));
        f = set_bit(f, flags::ZERO, difference == 0);
        f = set_bit(f, flags::HALF_CARRY, self.registers.a % 16 < value % 16);
        f = set_bit(f, flags::PARITY_OVERFLOW, self.registers.bc() != 0);
        f = set_bit(f, flags::ADD_SUBTRACT, true);
        self.registers.f = f;
    }

    fn set_block_io_flags(&mut self, value: u8)
        ensures
            final(self).machine() == old(self).machine().block_io_flags(value),
    {
        let mut f = self.registers.f;
        f = set_bit(f, flags::SIGN, bit_is_set(self.registers.b, 7));
        f = set_bit(f, flags::ZERO, self.registers.b == 0);
        f = set_bit(f, flags::HALF_CARRY, false);
        f = set_bit(f, flags::PARITY_OVERFLOW, false);
        f = set_bit(f, flags::ADD_SUBTRACT, bit_is_set(value, 7));
        self.registers.f = f;
    }

    /// INI: inputs from port BC into the byte at HL, counts HL up and B down.
    pub fn ini(&mut self)
        ensures
            final(self).machine() == old(self).machine().block_input::<B>(true),
    {
        let value = self.bus.read_io(self.registers.bc());
        self.bus.write8(self.registers.hl(), value);
        self.registers.set_hl(self.registers.hl().wrapping_add(1));
        self.registers.b = self.registers.b.wrapping_sub(1);
        self.set_block_io_flags(value);
    }

    /// IND: inputs from port BC into the byte at HL, counts HL and B down.
    pub fn ind(&mut self)
        ensures
            final(self).machine() == old(self).machine().block_input::<B>(false),
    {
        let value = self.bus.read_io(self.registers.bc());
        self.bus.write8(self.registers.hl(), value);
        self.registers.set_hl(self.registers.hl().wrapping_sub(1));
        self.registers.b = self.registers.b.wrapping_sub(1);
        self.set_block_io_flags(value);
    }

    /// OUTI: counts B down, outputs the byte at HL to port BC, counts HL up.
    pub fn outi(&mut self)
        ensures
            final(self).machine() == old(self).machine().block_output::<B>(true),
    {
        let value = self.bus.read8(self.registers.hl());
        self.registers.b = self.registers.b.wrapping_sub(1);
        self.bus.write_io(self.registers.bc(), value);
        self.registers.set_hl(self.registers.hl().wrapping_add(1));
        self.set_block_io_flags(value);
    }

    /// OUTD: counts B down, outputs the byte at HL to port BC, counts HL down.
    pub fn outd(&mut self)
        ensures
            final(self).machine() == old(self).machine().block_output::<B>(false),
    {
        let value = self.bus.read8(self.registers.hl());
        self.registers.b = self.registers.b.wrapping_sub(1);
        self.bus.write_io(self.registers.bc(), value);
        self.registers.set_hl(self.registers.hl().wrapping_sub(1));
        self.set_block_io_flags(value);
    }
}

/// Whether a CB-prefixed opcode is implemented.
fn shift_opcode_is_supported(opcode: u8) -> (r: bool)
    ensures
        r == shift_opcode_supported(opcode),
{
    let (group, op1, _op2) = into_group_and_operands(opcode);
    !(group == 0 && op1 == 6)
}

/// Whether an ED-prefixed opcode is implemented.
fn extended_opcode_is_supported(opcode: u8) -> (r: bool)
    ensures
        r == extended_opcode_supported(opcode),
{
    let (group, op1, op2) = into_group_and_operands(opcode);
    if group == 1 {
        match op2 {
            4 => op1 == 0,
            5 => op1 <= 1,
            6 => op1 == 0 || op1 == 2 || op1 == 3,
            7 => op1 <= 5,
            _ => true,
        }
    } else if group == 2 {
        op1 >= 4 && op2 <= 3
    } else {
        false
    }
}

/// Whether a DD/FD-prefixed opcode (with the closing opcode of a DD CB /
/// FD CB instruction) is implemented.
fn index_opcode_is_supported(opcode: u8, closing: u8) -> (r: bool)
    ensures
        r == index_opcode_supported(opcode, closing),
{
    let (group, op1, op2) = into_group_and_operands(opcode);
    if group == 0 {
        (op1 == 4 && (op2 == 1 || op2 == 2 || op2 == 3)) || (op1 == 5 && (op2 == 2 || op2 == 3))
            || (op1 == 6 && (op2 == 4 || op2 == 5 || op2 == 6)) || (op2 == 1 && op1 % 2 == 1)
    } else if group == 1 {
        (op2 == 6 && op1 != 6) || (op1 == 6 && op2 != 6)
    } else if group == 2 {
        op2 == 6
    } else {
        let (closing_group, closing_op1, closing_op2) = into_group_and_operands(closing);
        let closing_supported = if closing_group == 0 {
            closing_op1 != 6
        } else if closing_group == 1 {
            closing_op2 == 6
        } else {
            true
        };
        (op1 == 7 && op2 == 1) || (op1 == 5 && op2 == 1) || (op1 == 4 && (op2 == 5 || op2 == 1
            || op2 == 3)) || (op1 == 1 && op2 == 3 && closing_supported)
    }
}

impl<B: Bus> Cpu<B> {
    /// Whether the instruction at the program counter is one that
    /// [`Cpu::step`] implements.
    pub fn supports_next_instruction(&mut self) -> (r: bool)
        ensures
            r == supported(old(self).machine()),
            final(self).machine() == old(self).machine(),
    {
        let pc = self.registers.pc;
        let opcode = self.bus.read8(pc);
        let next = self.bus.read8(pc.wrapping_add(1));
        if opcode == 0xF9 {
            false
        } else if opcode == 0xCB {
            shift_opcode_is_supported(next)
        } else if opcode == 0xED {
            extended_opcode_is_supported(next)
        } else if opcode == 0xDD || opcode == 0xFD {
            let closing = self.bus.read8(pc.wrapping_add(3));
            index_opcode_is_supported(next, closing)
        } else {
            true
        }
    }

    /// Executes the instruction at the program counter.
    pub fn step(&mut self)
        requires
            supported(old(self).machine()),
        ensures
            final(self).machine() == step_spec::<B>(old(self).machine()),
    {
        let opcode = self.bus.read8(self.registers.pc);
        if opcode == 0x76 {
            // HALT
            self.registers.increment_r();
            self.registers.halted = true;
            return ;
        }
        let (group, op1, op2) = into_group_and_operands(opcode);
        self.advance();
        if group == 0 {
            self.execute_group0(op1, op2);
        } else if group == 1 {
            // LD r, r'
            let value = self.read_indexed_register(op2);
            self.write_indexed_register(op1, value);
        } else if group == 2 {
            // ADD, ADC, SUB, SBC, AND, XOR, OR, CP r
            let value = self.read_indexed_register(op2);
            self.execute_alu(op1, value);
        } else if opcode == 0xCB {
            let next = self.read_and_advance();
            self.execute_shift(next);
        } else if opcode == 0xED {
            let next = self.read_and_advance();
            self.execute_extended(next);
        } else if opcode == 0xDD || opcode == 0xFD {
            let next = self.read_and_advance();
            self.execute_index(opcode == 0xFD, next);
        } else {
            self.execute_group3(op1, op2);
        }
    }

    /// Executes instructions until the processor halts (or, for a program
    /// that never halts, for 2^64 - 1 steps).
    pub fn run(&mut self)
        requires
            runs_supported::<B>(old(self).machine(), u64::MAX as nat),
        ensures
            final(self).machine() == run_spec::<B>(old(self).machine(), u64::MAX as nat),
    {
        let ghost start = self.machine();
        let mut remaining: u64 = u64::MAX;
        while remaining > 0 && !self.registers.halted
            invariant
                run_spec::<B>(self.machine(), remaining as nat) == run_spec::<B>(start, u64::MAX as nat),
                runs_supported::<B>(self.machine(), remaining as nat),
            decreases remaining,
        {
            self.step();
            remaining = remaining - 1;
        }
    }
}

} // verus!
