//! The DD- and FD-prefixed instructions, which use IX and IY.

use vstd::prelude::*;
use crate::bus::Bus;
use crate::cpu::{Cpu, wrapping_offset_u16};
use crate::decode::into_group_and_operands;
use crate::flags::{self, set_bit};
use crate::semantics::{exec_index, exec_index_shift};

verus! {

impl<B: Bus> Cpu<B> {
    /// The value of IX (`use_iy` false) or IY (`use_iy` true).
    fn index_register(&self, use_iy: bool) -> (r: u16)
        ensures
            r == self.machine().index_reg(use_iy),
    {
        if use_iy {
            self.registers.iy
        } else {
            self.registers.ix
        }
    }

    /// Sets IX (`use_iy` false) or IY (`use_iy` true).
    fn set_index_register(&mut self, use_iy: bool, value: u16)
        ensures
            final(self).machine() == old(self).machine().set_index_reg(use_iy, value),
    {
        if use_iy {
            self.registers.iy = value;
        } else {
            self.registers.ix = value;
        }
    }

    /// Reads a displacement and returns the address it selects relative to
    /// IX or IY.
    fn read_displaced_address(&mut self, use_iy: bool) -> (address: u16)
        ensures
            ({
                let (offset, m1) = old(self).machine().fetch();
                &&& address == crate::machine::displaced(old(self).machine().index_reg(use_iy), offset)
                &&& final(self).machine() == m1
            }),
    {
        let offset = self.read_and_advance();
        wrapping_offset_u16(self.index_register(use_iy), offset)
    }

    /// Executes a DD-prefixed (`use_iy` false) or FD-prefixed (`use_iy`
    /// true) instruction whose second opcode byte is `opcode`.
    pub(crate) fn execute_index(&mut self, use_iy: bool, opcode: u8)
        ensures
            final(self).machine() == exec_index::<B>(old(self).machine(), use_iy, opcode),
    {
        let (group, op1, op2) = into_group_and_operands(opcode);
        let x = self.index_register(use_iy);
        if group == 0 {
            self.execute_index_group0(use_iy, opcode, op1, op2);
        } else if group == 1 {
            if op2 == 6 && op1 != 6 {
                // LD r, (X + d)
                let address = self.read_displaced_address(use_iy);
                let value = self.bus.read8(address);
                self.write_indexed_register(op1, value);
            } else if op1 == 6 && op2 != 6 {
                // LD (X + d), r
                let address = self.read_displaced_address(use_iy);
                let value = self.read_indexed_register(op2);
                self.bus.write8(address, value);
            }
        } else if group == 2 {
            if op2 == 6 {
                // ADD, ADC, SUB, SBC, AND, XOR, OR, CP A, (X + d)
                let address = self.read_displaced_address(use_iy);
                let value = self.bus.read8(address);
                self.execute_alu(op1, value);
            }
        } else if op1 == 7 && op2 == 1 {
            // LD SP, X
            self.registers.sp = x;
        } else if op1 == 5 && op2 == 1 {
            // JP (X)
            self.registers.pc = x;
        } else if op1 == 4 && op2 == 5 {
            // PUSH X
            self.registers.sp = self.registers.sp.wrapping_sub(2);
            self.bus.write16(self.registers.sp, x);
        } else if op1 == 4 && op2 == 1 {
            // POP X
            let value = self.bus.read16(self.registers.sp);
            self.registers.sp = self.registers.sp.wrapping_add(2);
            self.set_index_register(use_iy, value);
        } else if op1 == 4 && op2 == 3 {
            // EX (SP), X
            let buffer = self.bus.read16(self.registers.sp);
            self.bus.write16(self.registers.sp, x);
            self.set_index_register(use_iy, buffer);
        } else if op1 == 1 && op2 == 3 {
            self.execute_index_shift(use_iy);
        }
    }

    /// The DD/FD instructions of group 0.
    fn execute_index_group0(&mut self, use_iy: bool, opcode: u8, op1: u8, op2: u8)
        requires
            opcode / 64 == 0,
            op1 == (opcode / 8) % 8,
            op2 == opcode % 8,
        ensures
            final(self).machine() == exec_index::<B>(old(self).machine(), use_iy, opcode),
    {
        let x = self.index_register(use_iy);
        if op1 == 4 && op2 == 1 {
            // LD X, nn
            let value = self.read_16_and_advance();
            self.set_index_register(use_iy, value);
        } else if op1 == 4 && op2 == 2 {
            // LD (nn), X
            let address = self.read_16_and_advance();
            self.bus.write16(address, x);
        } else if op1 == 5 && op2 == 2 {
            // LD X, (nn)
            let address = self.read_16_and_advance();
            let value = self.bus.read16(address);
            self.set_index_register(use_iy, value);
        } else if op1 == 6 && op2 == 6 {
            // LD (X + d), n
            let address = self.read_displaced_address(use_iy);
            let value = self.read_and_advance();
            self.bus.write8(address, value);
        } else if op2 == 1 && op1 % 2 == 1 {
            // ADD X, rp
            let addend = if op1 == 5 {
                x
            } else {
                self.read_pair(op1 / 2)
            };
            let sum = self.add_u16_and_set_flags(x, addend, false);
            self.set_index_register(use_iy, sum);
        } else if op1 == 4 && op2 == 3 {
            // INC X
            self.set_index_register(use_iy, x.wrapping_add(1));
        } else if op1 == 5 && op2 == 3 {
            // DEC X
            self.set_index_register(use_iy, x.wrapping_sub(1));
        } else if op1 == 6 && (op2 == 4 || op2 == 5) {
            // INC (X + d), DEC (X + d)
            let address = self.read_displaced_address(use_iy);
            let before = self.bus.read8(address);
            let mut f = self.registers.f;
            let after = if op2 == 4 {
                let after = before.wrapping_add(1);
                f = set_bit(f, flags::ADD_SUBTRACT, false);
                f = set_bit(f, flags::PARITY_OVERFLOW, before == 0x7F);
                f = set_bit(f, flags::HALF_CARRY, before % 16 == 15);
                after
            } else {
                let after = before.wrapping_sub(1);
                f = set_bit(f, flags::ADD_SUBTRACT, true);
                f = set_bit(f, flags::PARITY_OVERFLOW, before == 0x80);
                f = set_bit(f, flags::HALF_CARRY, before % 16 == 0);
                after
            };
            f = set_bit(f, flags::ZERO, after == 0);
            f = set_bit(f, flags::SIGN, after >= 128);
            self.registers.f = f;
            self.bus.write8(address, after);
        }
    }

    /// Executes a DD CB / FD CB instruction; the program counter is at the
    /// displacement.
    fn execute_index_shift(&mut self, use_iy: bool)
        ensures
            final(self).machine() == exec_index_shift(old(self).machine(), use_iy),
    {
        let address = self.read_displaced_address(use_iy);
        let value = self.bus.read8(address);
        let closing_opcode = self.read_and_advance();
        let (group, op1, op2) = into_group_and_operands(closing_opcode);
        if group == 0 {
            if op1 != 6 {
                // RLC, RRC, RL, RR, SLA, SRA, SRL (X + d), copied to a register
                let result = self.shift_and_store(op1, value, address);
                if op2 != 6 {
                    self.write_indexed_register(op2, result);
                }
            }
        } else if group == 1 {
            if op2 == 6 {
                // BIT n, (X + d)
                self.bit(value, op1);
            }
        } else {
            // RES / SET n, (X + d), copied to a register
            let result = if group == 2 {
                self.res_and_store(value, op1, address)
            } else {
                self.set_and_store(value, op1, address)
            };
            if op2 != 6 {
                self.write_indexed_register(op2, result);
            }
        }
    }
}

} // verus!
