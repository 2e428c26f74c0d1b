//! The instructions without a prefix byte.

use vstd::prelude::*;
use crate::bus::Bus;
use crate::cpu::{Cpu, wrapping_offset_u16, has_even_parity};
use crate::flags::{self, bit_is_set, set_bit};
use crate::registers::join;
use crate::semantics::{exec_group0, exec_accumulator_misc, exec_group3, alu};

verus! {

impl<B: Bus> Cpu<B> {
    /// Reads the register pair that a two-bit pair field names (BC, DE, HL, SP).
    pub(crate) fn read_pair(&self, p: u8) -> (value: u16)
        requires
            p < 4,
        ensures
            value == self.machine().rp(p),
    {
        match p {
            0 => self.registers.bc(),
            1 => self.registers.de(),
            2 => self.registers.hl(),
            _ => self.registers.sp,
        }
    }

    /// Writes the register pair that a two-bit pair field names.
    pub(crate) fn write_pair(&mut self, p: u8, value: u16)
        requires
            p < 4,
        ensures
            final(self).machine() == old(self).machine().set_rp(p, value),
    {
        match p {
            0 => self.registers.set_bc(value),
            1 => self.registers.set_de(value),
            2 => self.registers.set_hl(value),
            _ => self.registers.sp = value,
        }
    }

    /// Evaluates the condition that a three-bit condition field names.
    pub(crate) fn condition(&self, cc: u8) -> (r: bool)
        requires
            cc < 8,
        ensures
            r == self.machine().condition(cc),
    {
        match cc {
            0 => !bit_is_set(self.registers.f, flags::ZERO),
            1 => bit_is_set(self.registers.f, flags::ZERO),
            2 => !bit_is_set(self.registers.f, flags::CARRY),
            3 => bit_is_set(self.registers.f, flags::CARRY),
            4 => !bit_is_set(self.registers.f, flags::PARITY_OVERFLOW),
            5 => bit_is_set(self.registers.f, flags::PARITY_OVERFLOW),
            6 => !bit_is_set(self.registers.f, flags::SIGN),
            _ => bit_is_set(self.registers.f, flags::SIGN),
        }
    }

    /// Executes an instruction of group 0 (the opcode already fetched).
    pub(crate) fn execute_group0(&mut self, op1: u8, op2: u8)
        requires
            op1 < 8,
            op2 < 8,
        ensures
            final(self).machine() == exec_group0(old(self).machine(), op1, op2),
    {
        match op2 {
            0 => self.execute_relative(op1),
            1 => {
                if op1 % 2 == 0 {
                    // LD rp, nn
                    let value = self.read_16_and_advance();
                    self.write_pair(op1 / 2, value);
                } else {
                    // ADD HL, rp
                    let addend = self.read_pair(op1 / 2);
                    let sum = self.add_u16_and_set_flags(self.registers.hl(), addend, false);
                    self.registers.set_hl(sum);
                }
            },
            2 => self.execute_indirect_load(op1),
            3 => {
                let value = self.read_pair(op1 / 2);
                if op1 % 2 == 0 {
                    // INC rp
                    self.write_pair(op1 / 2, value.wrapping_add(1));
                } else {
                    // DEC rp
                    self.write_pair(op1 / 2, value.wrapping_sub(1));
                }
            },
            4 => {
                // INC r
                let before = self.read_indexed_register(op1);
                let after = before.wrapping_add(1);
                self.write_indexed_register(op1, after);
                let mut f = self.registers.f;
                f = set_bit(f, flags::ADD_SUBTRACT, false);
                f = set_bit(f, flags::PARITY_OVERFLOW, before == 0x7F);
                f = set_bit(f, flags::HALF_CARRY, before % 16 == 15);
                f = set_bit(f, flags::ZERO, after == 0);
                f = set_bit(f, flags::SIGN, after >= 128);
                self.registers.f = f;
            },
            5 => {
                // DEC r
                let before = self.read_indexed_register(op1);
                let after = before.wrapping_sub(1);
                self.write_indexed_register(op1, after);
                let mut f = self.registers.f;
                f = set_bit(f, flags::ADD_SUBTRACT, true);
                f = set_bit(f, flags::PARITY_OVERFLOW, before == 0x80);
                f = set_bit(f, flags::HALF_CARRY, before % 16 == 0);
                self.registers.f = f;
                self.set_zero_and_sign_flags_for_u8(after);
            },
            6 => {
                // LD r, n
                let value = self.read_and_advance();
                self.write_indexed_register(op1, value);
            },
            _ => self.execute_accumulator_misc(op1),
        }
    }

    /// NOP, EX AF,AF', DJNZ, JR and JR cc.
    fn execute_relative(&mut self, op1: u8)
        requires
            op1 < 8,
        ensures
            final(self).machine() == exec_group0(old(self).machine(), op1, 0),
    {
        match op1 {
            0 => {},
            1 => {
                // EX AF, AF'
                let af = self.registers.af();
                self.registers.set_af(self.registers.af_alt());
                self.registers.set_af_alt(af);
            },
            2 => {
                // DJNZ
                let offset = self.read_and_advance();
                self.registers.b = self.registers.b.wrapping_sub(1);
                if self.registers.b != 0 {
                    self.registers.pc = wrapping_offset_u16(self.registers.pc, offset);
                }
            },
            3 => {
                // JR e
                let offset = self.read_and_advance();
                self.registers.pc = wrapping_offset_u16(self.registers.pc, offset);
            },
            _ => {
                // JR NZ/Z/NC/C, e
                let offset = self.read_and_advance();
                if self.condition(op1 - 4) {
                    self.registers.pc = wrapping_offset_u16(self.registers.pc, offset);
                }
            },
        }
    }

    /// LD (BC)/(DE), A; LD A, (BC)/(DE); LD (nn), HL; LD HL, (nn);
    /// LD (nn), A; LD A, (nn).
    fn execute_indirect_load(&mut self, op1: u8)
        requires
            op1 < 8,
        ensures
            final(self).machine() == exec_group0(old(self).machine(), op1, 2),
    {
        if op1 < 4 {
            let address = if op1 < 2 {
                self.registers.bc()
            } else {
                self.registers.de()
            };
            if op1 % 2 == 0 {
                self.bus.write8(address, self.registers.a);
            } else {
                self.registers.a = self.bus.read8(address);
            }
        } else {
            let low = self.read_and_advance();
            let high = self.read_and_advance();
            let address = join(high, low);
            if op1 == 4 {
                self.bus.write8(address, self.registers.l);
                self.bus.write8(address.wrapping_add(1), self.registers.h);
            } else if op1 == 5 {
                self.registers.l = self.bus.read8(address);
                self.registers.h = self.bus.read8(address.wrapping_add(1));
            } else if op1 == 6 {
                self.bus.write8(address, self.registers.a);
            } else {
                self.registers.a = self.bus.read8(address);
            }
        }
    }

    /// RLCA, RRCA, RLA, RRA, DAA, CPL, SCF, CCF.
    fn execute_accumulator_misc(&mut self, op1: u8)
        requires
            op1 < 8,
        ensures
            final(self).machine() == exec_accumulator_misc(old(self).machine(), op1),
    {
        match op1 {
            0 => {
                // RLCA
                let a = self.registers.a;
                self.registers.a = (a << 1u8) | (a >> 7u8);
                self.set_rotate_flags(bit_is_set(self.registers.a, 0));
            },
            1 => {
                // RRCA
                let a = self.registers.a;
                self.registers.a = (a >> 1u8) | (a << 7u8);
                self.set_rotate_flags(bit_is_set(self.registers.a, 7));
            },
            2 => {
                // RLA
                let old_carry = bit_is_set(self.registers.f, flags::CARRY);
                let new_carry = bit_is_set(self.registers.a, 7);
                let shifted = self.registers.a << 1u8;
                self.registers.a = if old_carry {
                    shifted | 1u8
                } else {
                    shifted
                };
                self.set_rotate_flags(new_carry);
            },
            3 => {
                // RRA
                let old_carry = bit_is_set(self.registers.f, flags::CARRY);
                let new_carry = bit_is_set(self.registers.a, 0);
                let shifted = self.registers.a >> 1u8;
                self.registers.a = if old_carry {
                    shifted | 0x80u8
                } else {
                    shifted
                };
                self.set_rotate_flags(new_carry);
            },
            4 => {
                // DAA
                let was_subtract = bit_is_set(self.registers.f, flags::ADD_SUBTRACT);
                let diff = self.bcd_difference();
                let new_half_carry = self.bcd_new_half_carry();
                let new_carry = self.bcd_new_carry();
                if was_subtract {
                    self.registers.a = self.registers.a.wrapping_sub(diff);
                } else {
                    self.registers.a = self.registers.a.wrapping_add(diff);
                }
                let a = self.registers.a;
                let mut f = self.registers.f;
                f = set_bit(f, flags::CARRY, new_carry);
                f = set_bit(f, flags::HALF_CARRY, new_half_carry);
                f = set_bit(f, flags::PARITY_OVERFLOW, has_even_parity(a));
                f = set_bit(f, flags::ZERO, a == 0);
                f = set_bit(f, flags::SIGN, bit_is_set(a, 7));
                self.registers.f = f;
            },
            5 => {
                // CPL
                self.registers.a = !self.registers.a;
                let mut f = self.registers.f;
                f = set_bit(f, flags::ADD_SUBTRACT, true);
                f = set_bit(f, flags::HALF_CARRY, true);
                self.registers.f = f;
            },
            6 => {
                // SCF
                let mut f = self.registers.f;
                f = set_bit(f, flags::ADD_SUBTRACT, false);
                f = set_bit(f, flags::HALF_CARRY, false);
                f = set_bit(f, flags::CARRY, true);
                self.registers.f = f;
            },
            _ => {
                // CCF
                let old_carry = bit_is_set(self.registers.f, flags::CARRY);
                let mut f = self.registers.f;
                f = set_bit(f, flags::ADD_SUBTRACT, false);
                f = set_bit(f, flags::HALF_CARRY, old_carry);
                f = set_bit(f, flags::CARRY, !old_carry);
                self.registers.f = f;
            },
        }
    }

    /// Applies the accumulator operation that a three-bit operation field
    /// selects to `operand`: ADD, ADC, SUB, SBC, AND, XOR, OR, CP.
    pub(crate) fn execute_alu(&mut self, operation: u8, operand: u8)
        requires
            operation < 8,
        ensures
            final(self).machine() == alu(old(self).machine(), operation, operand),
    {
        match operation {
            0 => {
                let sum = self.add_u8_and_set_flags(self.registers.a, operand, false);
                self.registers.a = sum;
            },
            1 => {
                let sum = self.add_u8_and_set_flags(self.registers.a, operand, true);
                self.registers.a = sum;
            },
            2 => {
                let difference = self.subtract_u8_and_set_flags(self.registers.a, operand, false);
                self.registers.a = difference;
            },
            3 => {
                let difference = self.subtract_u8_and_set_flags(self.registers.a, operand, true);
                self.registers.a = difference;
            },
            4 => {
                self.registers.a = self.registers.a & operand;
                self.set_logic_flags(self.registers.a, true);
            },
            5 => {
                self.registers.a = self.registers.a ^ operand;
                self.set_logic_flags(self.registers.a, false);
            },
            6 => {
                self.registers.a = self.registers.a | operand;
                self.set_logic_flags(self.registers.a, false);
            },
            _ => {
                self.subtract_u8_and_set_flags(self.registers.a, operand, false);
            },
        }
    }

    /// Executes an unprefixed instruction of group 3 (the opcode already
    /// fetched).
    pub(crate) fn execute_group3(&mut self, op1: u8, op2: u8)
        requires
            op1 < 8,
            op2 < 8,
        ensures
            final(self).machine() == exec_group3::<B>(old(self).machine(), op1, op2),
    {
        match op2 {
            0 => {
                // RET cc
                if self.condition(op1) {
                    self.ret();
                }
            },
            1 => self.execute_pop_and_misc(op1),
            2 => {
                // JP cc, nn
                let address = self.read_16_and_advance();
                if self.condition(op1) {
                    self.registers.pc = address;
                }
            },
            3 => self.execute_jump_io_exchange(op1),
            4 => {
                // CALL cc, nn
                let address = self.read_16_and_advance();
                if self.condition(op1) {
                    self.call(address);
                }
            },
            5 => {
                if op1 % 2 == 0 {
                    // PUSH rr
                    let (high, low) = match op1 {
                        0 => (self.registers.b, self.registers.c),
                        2 => (self.registers.d, self.registers.e),
                        4 => (self.registers.h, self.registers.l),
                        _ => (self.registers.a, self.registers.f),
                    };
                    self.registers.sp = self.registers.sp.wrapping_sub(1);
                    self.bus.write8(self.registers.sp, high);
                    self.registers.sp = self.registers.sp.wrapping_sub(1);
                    self.bus.write8(self.registers.sp, low);
                } else if op1 == 1 {
                    // CALL nn
                    let address = self.read_16_and_advance();
                    self.call(address);
                }
            },
            6 => {
                // ALU A, n
                let operand = self.read_and_advance();
                self.execute_alu(op1, operand);
            },
            _ => {
                // RST p
                self.call(op1 as u16 * 8);
            },
        }
    }

    /// POP rr, RET, EXX, JP (HL).
    fn execute_pop_and_misc(&mut self, op1: u8)
        requires
            op1 < 8,
        ensures
            final(self).machine() == exec_group3::<B>(old(self).machine(), op1, 1),
    {
        if op1 % 2 == 0 {
            // POP rr
            let low = self.bus.read8(self.registers.sp);
            self.registers.sp = self.registers.sp.wrapping_add(1);
            let high = self.bus.read8(self.registers.sp);
            self.registers.sp = self.registers.sp.wrapping_add(1);
            let value = join(high, low);
            if op1 == 6 {
                self.registers.set_af(value);
            } else {
                self.write_pair(op1 / 2, value);
            }
        } else if op1 == 1 {
            // RET
            self.ret();
        } else if op1 == 3 {
            // EXX
            let bc = self.registers.bc();
            let de = self.registers.de();
            let hl = self.registers.hl();
            self.registers.set_bc(self.registers.bc_alt());
            self.registers.set_de(self.registers.de_alt());
            self.registers.set_hl(self.registers.hl_alt());
            self.registers.set_bc_alt(bc);
            self.registers.set_de_alt(de);
            self.registers.set_hl_alt(hl);
        } else if op1 == 5 {
            // JP (HL)
            self.registers.pc = self.registers.hl();
        }
    }

    /// JP nn, OUT (n),A, IN A,(n), EX (SP),HL, EX DE,HL, DI, EI.
    fn execute_jump_io_exchange(&mut self, op1: u8)
        requires
            op1 < 8,
        ensures
            final(self).machine() == exec_group3::<B>(old(self).machine(), op1, 3),
    {
        match op1 {
            0 => {
                // JP nn
                let address = self.read_16_and_advance();
                self.registers.pc = address;
            },
            2 => {
                // OUT (n), A
                let n = self.read_and_advance();
                let port = join(self.registers.a, n);
                self.bus.write_io(port, self.registers.a);
            },
            3 => {
                // IN A, (n)
                let n = self.read_and_advance();
                let port = join(self.registers.a, n);
                self.registers.a = self.bus.read_io(port);
            },
            4 => {
                // EX (SP), HL
                let l = self.registers.l;
                let h = self.registers.h;
                let high_offset = self.registers.sp.wrapping_add(1);
                self.registers.l = self.bus.read8(self.registers.sp);
                self.registers.h = self.bus.read8(high_offset);
                self.bus.write8(self.registers.sp, l);
                self.bus.write8(high_offset, h);
            },
            5 => {
                // EX DE, HL
                let hl = self.registers.hl();
                self.registers.set_hl(self.registers.de());
                self.registers.set_de(hl);
            },
            6 => {
                // DI
                self.registers.iff1 = false;
                self.registers.iff2 = false;
            },
            7 => {
                // EI
                self.registers.iff1 = true;
                self.registers.iff2 = true;
            },
            _ => {},
        }
    }
}

} // verus!
