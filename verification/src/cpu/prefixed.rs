//! The CB- and ED-prefixed instructions.

use vstd::prelude::*;
use crate::bus::Bus;
use crate::cpu::{Cpu, has_even_parity, lemma_add16_overflow};
use crate::decode::into_group_and_operands;
use crate::flags::{self, bit_is_set, set_bit};
use crate::machine::carry_in;
use crate::semantics::{exec_shift, exec_extended, exec_extended_misc, exec_hl_arithmetic, exec_block};

verus! {

impl<B: Bus> Cpu<B> {
    /// Executes a CB-prefixed instruction whose second opcode byte is `opcode`.
    pub(crate) fn execute_shift(&mut self, opcode: u8)
        ensures
            final(self).machine() == exec_shift(old(self).machine(), opcode),
    {
        let (group, op1, op2) = into_group_and_operands(opcode);
        let value = self.read_indexed_register(op2);
        match group {
            0 => {
                // RLC, RRC, RL, RR, SLA, SRA, SRL r
                if op1 != 6 {
                    let result = self.shift_and_set_flags(op1, value);
                    self.write_indexed_register(op2, result);
                }
            },
            1 => {
                // BIT n, r
                self.bit(value, op1);
            },
            2 => {
                // RES n, r
                let result = set_bit(value, op1, false);
                self.write_indexed_register(op2, result);
            },
            _ => {
                // SET n, r
                let result = set_bit(value, op1, true);
                self.write_indexed_register(op2, result);
            },
        }
    }

    /// Sets S, Z and P/V from `value` and clears H and N.
    fn set_value_flags(&mut self, value: u8)
        ensures
            final(self).machine() == old(self).machine().set_f(
                crate::semantics::value_flags(old(self).registers.f, value),
            ),
    {
        let mut f = self.registers.f;
        f = set_bit(f, flags::SIGN, bit_is_set(value, 7));
        f = set_bit(f, flags::ZERO, value == 0);
        f = set_bit(f, flags::HALF_CARRY, false);
        f = set_bit(f, flags::PARITY_OVERFLOW, has_even_parity(value));
        f = set_bit(f, flags::ADD_SUBTRACT, false);
        self.registers.f = f;
    }

    /// Executes an ED-prefixed instruction whose second opcode byte is `opcode`.
    pub(crate) fn execute_extended(&mut self, opcode: u8)
        ensures
            final(self).machine() == exec_extended::<B>(old(self).machine(), opcode),
    {
        let (group, op1, op2) = into_group_and_operands(opcode);
        if group == 1 {
            match op2 {
                0 => {
                    // IN r, (C)
                    let port = self.registers.bc();
                    let value = self.bus.read_io(port);
                    self.write_indexed_register(op1, value);
                    self.set_value_flags(value);
                },
                1 => {
                    // OUT (C), r
                    let port = self.registers.bc();
                    let value = self.read_indexed_register(op1);
                    self.bus.write_io(port, value);
                },
                2 => self.execute_hl_arithmetic(op1),
                3 => {
                    let address = self.read_16_and_advance();
                    if op1 % 2 == 0 {
                        // LD (nn), rp
                        let value = self.read_pair(op1 / 2);
                        self.bus.write16(address, value);
                    } else {
                        // LD rp, (nn)
                        let value = self.bus.read16(address);
                        self.write_pair(op1 / 2, value);
                    }
                },
                4 => {
                    if op1 == 0 {
                        // NEG
                        let before = self.registers.a;
                        self.registers.a = 0u8.wrapping_sub(before);
                        let a = self.registers.a;
                        let mut f = self.registers.f;
                        f = set_bit(f, flags::SIGN, bit_is_set(a, 7));
                        f = set_bit(f, flags::ZERO, a == 0);
                        f = set_bit(f, flags::HALF_CARRY, before % 16 != 0);
                        f = set_bit(f, flags::PARITY_OVERFLOW, before == 0x80);
                        f = set_bit(f, flags::ADD_SUBTRACT, true);
                        f = set_bit(f, flags::CARRY, before != 0);
                        self.registers.f = f;
                    }
                },
                5 => {
                    if op1 <= 1 {
                        // RETN, RETI
                        self.registers.iff1 = self.registers.iff2;
                        self.ret();
                    }
                },
                6 => {
                    // IM 0, IM 1, IM 2
                    if op1 == 0 {
                        self.registers.im = 0;
                    } else if op1 == 2 {
                        self.registers.im = 1;
                    } else if op1 == 3 {
                        self.registers.im = 2;
                    }
                },
                _ => self.execute_extended_misc(op1),
            }
        } else if group == 2 && op1 >= 4 && op2 <= 3 {
            self.execute_block(op1, op2);
        }
    }

    /// SBC HL, rp and ADC HL, rp.
    fn execute_hl_arithmetic(&mut self, op1: u8)
        requires
            op1 < 8,
        ensures
            final(self).machine() == exec_hl_arithmetic(old(self).machine(), op1),
    {
        let operand = self.read_pair(op1 / 2);
        let hl = self.registers.hl();
        if op1 % 2 == 0 {
            // SBC HL, rp
            let result = self.subtract_u16_and_set_flags(hl, operand, true);
            self.registers.set_hl(result);
        } else {
            // ADC HL, rp
            proof {
                lemma_add16_overflow(hl, operand, carry_in(self.registers.f, true));
            }
            let sum = self.add_u16_and_set_flags(hl, operand, true);
            self.registers.set_hl(sum);
            let augend_negative = hl >= 32768;
            let addend_negative = operand >= 32768;
            let sum_negative = sum >= 32768;
            let overflow = (augend_negative == addend_negative) && (augend_negative
                != sum_negative);
            let mut f = self.registers.f;
            f = set_bit(f, flags::PARITY_OVERFLOW, overflow);
            f = set_bit(f, flags::ZERO, sum == 0);
            f = set_bit(f, flags::SIGN, sum >= 32768);
            self.registers.f = f;
        }
    }

    /// LD I,A; LD R,A; LD A,I; LD A,R; RRD; RLD.
    fn execute_extended_misc(&mut self, op1: u8)
        requires
            op1 < 8,
        ensures
            final(self).machine() == exec_extended_misc(old(self).machine(), op1),
    {
        match op1 {
            0 => self.registers.i = self.registers.a,
            1 => self.registers.r = self.registers.a,
            2 | 3 => {
                let value = if op1 == 2 {
                    self.registers.i
                } else {
                    self.registers.r
                };
                self.registers.a = value;
                let mut f = self.registers.f;
                f = set_bit(f, flags::SIGN, bit_is_set(value, 7));
                f = set_bit(f, flags::ZERO, value == 0);
                f = set_bit(f, flags::HALF_CARRY, false);
                f = set_bit(f, flags::PARITY_OVERFLOW, self.registers.iff2);
                f = set_bit(f, flags::ADD_SUBTRACT, false);
                self.registers.f = f;
            },
            4 | 5 => {
                // RRD, RLD
                let address = self.registers.hl();
                let value = self.bus.read8(address);
                let a = self.registers.a;
                let new_value = if op1 == 5 {
                    ((value & 0x0Fu8) << 4u8) | (a & 0x0Fu8)
                } else {
                    ((a & 0x0Fu8) << 4u8) | (value >> 4u8)
                };
                let new_acc = if op1 == 5 {
                    (a & 0xF0u8) | (value >> 4u8)
                } else {
                    (a & 0xF0u8) | (value & 0x0Fu8)
                };
                self.bus.write8(address, new_value);
                self.registers.a = new_acc;
                self.set_value_flags(new_acc);
            },
            _ => {},
        }
    }

    /// LDI, LDIR, LDD, LDDR, CPI, CPIR, CPD, CPDR, INI, INIR, IND, INDR,
    /// OUTI, OTIR, OUTD, OTDR.
    fn execute_block(&mut self, op1: u8, op2: u8)
        requires
            4 <= op1 < 8,
            op2 <= 3,
        ensures
            final(self).machine() == exec_block::<B>(old(self).machine(), op1, op2),
    {
        let forward = op1 % 2 == 0;
        let repeat = op1 >= 6;
        let again = match op2 {
            0 => {
                if forward {
                    self.ldi();
                } else {
                    self.ldd();
                }
                bit_is_set(self.registers.f, flags::PARITY_OVERFLOW)
            },
            1 => {
                if forward {
                    self.cpi();
                } else {
                    self.cpd();
                }
                bit_is_set(self.registers.f, flags::PARITY_OVERFLOW) && !bit_is_set(
                    self.registers.f,
                    flags::ZERO,
                )
            },
            2 => {
                if forward {
                    self.ini();
                } else {
                    self.ind();
                }
                !bit_is_set(self.registers.f, flags::ZERO)
            },
            _ => {
                if forward {
                    self.outi();
                } else {
                    self.outd();
                }
                !bit_is_set(self.registers.f, flags::ZERO)
            },
        };
        if repeat && again {
            self.registers.pc = self.registers.pc.wrapping_sub(2);
        }
    }
}

} // verus!
