//! What one instruction does, stated over the [`Machine`] model. The
//! executable interpreter in `cpu` is proved to follow these definitions.

use vstd::prelude::*;
use crate::bus::Bus;
use crate::flags::{bit_of, with_bit, CARRY, ADD_SUBTRACT, PARITY_OVERFLOW, HALF_CARRY, ZERO, SIGN};
use crate::machine::{
    Machine, carry_in, sum8, add8_flags, difference8, sub8_flags, sum16, add16_flags,
    difference16, sub16_flags, signed16, displaced, parity_even, rotl8, rotr8, bcd_correction,
    bcd_half_carry, bcd_carry, shift_result, shift_flags, bit_test_flags,
};
use crate::registers::{Registers, pair_value, next_refresh};

verus! {

impl Machine {
    /// Whether the condition that a three-bit condition field names holds:
    /// NZ, Z, NC, C, PO, PE, P, M.
    pub open spec fn condition(self, cc: u8) -> bool {
        if cc == 0 {
            !self.flag(ZERO)
        } else if cc == 1 {
            self.flag(ZERO)
        } else if cc == 2 {
            !self.flag(CARRY)
        } else if cc == 3 {
            self.flag(CARRY)
        } else if cc == 4 {
            !self.flag(PARITY_OVERFLOW)
        } else if cc == 5 {
            self.flag(PARITY_OVERFLOW)
        } else if cc == 6 {
            !self.flag(SIGN)
        } else {
            self.flag(SIGN)
        }
    }

    /// The register pair that a two-bit pair field names: BC, DE, HL, SP.
    pub open spec fn rp(self, p: u8) -> u16 {
        if p == 0 {
            self.bc()
        } else if p == 1 {
            self.de()
        } else if p == 2 {
            self.hl()
        } else {
            self.regs.sp
        }
    }

    /// The machine with the pair that a two-bit pair field names set to
    /// `value` (BC, DE, HL, SP).
    pub open spec fn set_rp(self, p: u8, value: u16) -> Machine {
        if p == 0 {
            self.set_bc(value)
        } else if p == 1 {
            self.set_de(value)
        } else if p == 2 {
            self.set_hl(value)
        } else {
            self.set_sp(value)
        }
    }

    /// The value of IX (`use_iy` false) or IY (`use_iy` true).
    pub open spec fn index_reg(self, use_iy: bool) -> u16 {
        if use_iy {
            self.regs.iy
        } else {
            self.regs.ix
        }
    }

    /// The machine with IX (`use_iy` false) or IY (`use_iy` true) set to `value`.
    pub open spec fn set_index_reg(self, use_iy: bool, value: u16) -> Machine {
        if use_iy {
            Machine { regs: Registers { iy: value, ..self.regs }, ..self }
        } else {
            Machine { regs: Registers { ix: value, ..self.regs }, ..self }
        }
    }

    /// The machine with the ports in the state they are in after `value` is
    /// output to `port`.
    pub open spec fn output<B: Bus>(self, port: u16, value: u8) -> Machine {
        Machine { ports: B::port_output(self.ports, port, value), ..self }
    }
}

/// The eight accumulator operations that a three-bit operation field
/// selects, applied to `operand`: ADD, ADC, SUB, SBC, AND, XOR, OR, CP.
pub open spec fn alu(m: Machine, operation: u8, operand: u8) -> Machine {
    let a = m.regs.a;
    let f = m.regs.f;
    if operation == 0 {
        m.set_f(add8_flags(f, a, operand, carry_in(f, false))).set_a(sum8(a, operand, carry_in(f, false)))
    } else if operation == 1 {
        m.set_f(add8_flags(f, a, operand, carry_in(f, true))).set_a(sum8(a, operand, carry_in(f, true)))
    } else if operation == 2 {
        m.set_f(sub8_flags(f, a, operand, carry_in(f, false))).set_a(
            difference8(a, operand, carry_in(f, false)),
        )
    } else if operation == 3 {
        m.set_f(sub8_flags(f, a, operand, carry_in(f, true))).set_a(
            difference8(a, operand, carry_in(f, true)),
        )
    } else if operation == 4 {
        m.set_a(a & operand).logic_flags(a & operand, true)
    } else if operation == 5 {
        m.set_a(a ^ operand).logic_flags(a ^ operand, false)
    } else if operation == 6 {
        m.set_a(a | operand).logic_flags(a | operand, false)
    } else {
        m.set_f(sub8_flags(f, a, operand, carry_in(f, false)))
    }
}

/// The flags after an 8-bit increment from `before` to `after`.
pub open spec fn inc8_flags(f: u8, before: u8, after: u8) -> u8 {
    with_bit(
        with_bit(
            with_bit(
                with_bit(with_bit(f, ADD_SUBTRACT, false), PARITY_OVERFLOW, before == 0x7F),
                HALF_CARRY,
                before % 16 == 15,
            ),
            ZERO,
            after == 0,
        ),
        SIGN,
        after >= 128,
    )
}

/// The flags after an 8-bit decrement from `before` to `after`.
pub open spec fn dec8_flags(f: u8, before: u8, after: u8) -> u8 {
    with_bit(
        with_bit(
            with_bit(
                with_bit(with_bit(f, ADD_SUBTRACT, true), PARITY_OVERFLOW, before == 0x80),
                HALF_CARRY,
                before % 16 == 0,
            ),
            ZERO,
            after == 0,
        ),
        SIGN,
        after >= 128,
    )
}

/// The flags after a load of `value` into A from I or R: S and Z describe
/// it, H and N are cleared, P/V copies IFF2.
pub open spec fn load_ir_flags(f: u8, value: u8, iff2: bool) -> u8 {
    with_bit(
        with_bit(
            with_bit(with_bit(with_bit(f, SIGN, bit_of(value, 7)), ZERO, value == 0), HALF_CARRY, false),
            PARITY_OVERFLOW,
            iff2,
        ),
        ADD_SUBTRACT,
        false,
    )
}

/// The flags after an input or a digit rotation that leaves `value`: S, Z
/// and P/V describe it, H and N are cleared.
pub open spec fn value_flags(f: u8, value: u8) -> u8 {
    with_bit(
        with_bit(
            with_bit(with_bit(with_bit(f, SIGN, bit_of(value, 7)), ZERO, value == 0), HALF_CARRY, false),
            PARITY_OVERFLOW,
            parity_even(value),
        ),
        ADD_SUBTRACT,
        false,
    )
}

/// The instructions whose opcode has the group field 0, after the opcode was
/// fetched (`m` is already advanced past it).
pub open spec fn exec_group0(m: Machine, op1: u8, op2: u8) -> Machine {
    if op2 == 0 {
        if op1 == 0 {
            m
        } else if op1 == 1 {
            let af = pair_value(m.regs.a, m.regs.f);
            let alt = pair_value(m.regs.a_alt, m.regs.f_alt);
            Machine {
                regs: Registers {
                    a: (alt / 256) as u8,
                    f: (alt % 256) as u8,
                    a_alt: (af / 256) as u8,
                    f_alt: (af % 256) as u8,
                    ..m.regs
                },
                ..m
            }
        } else if op1 == 2 {
            let (offset, m1) = m.fetch();
            let m2 = m1.set_b(m1.regs.b.wrapping_sub(1));
            if m2.regs.b != 0 {
                m2.set_pc(displaced(m2.regs.pc, offset))
            } else {
                m2
            }
        } else if op1 == 3 {
            let (offset, m1) = m.fetch();
            m1.set_pc(displaced(m1.regs.pc, offset))
        } else {
            let (offset, m1) = m.fetch();
            if m1.condition((op1 - 4) as u8) {
                m1.set_pc(displaced(m1.regs.pc, offset))
            } else {
                m1
            }
        }
    } else if op2 == 1 {
        if op1 % 2 == 0 {
            let (value, m1) = m.fetch16();
            m1.set_rp(op1 / 2, value)
        } else {
            let hl = m.hl();
            let addend = m.rp(op1 / 2);
            let f = m.regs.f;
            m.set_f(add16_flags(f, hl, addend, carry_in(f, false))).set_hl(
                sum16(hl, addend, carry_in(f, false)),
            )
        }
    } else if op2 == 2 {
        if op1 < 4 {
            let address = if op1 < 2 {
                m.bc()
            } else {
                m.de()
            };
            if op1 % 2 == 0 {
                m.write(address, m.regs.a)
            } else {
                m.set_a(m.read(address))
            }
        } else {
            let (address, m1) = m.fetch16();
            if op1 == 4 {
                m1.write(address, m1.regs.l).write(address.wrapping_add(1), m1.regs.h)
            } else if op1 == 5 {
                let m2 = Machine { regs: Registers { l: m1.read(address), ..m1.regs }, ..m1 };
                Machine { regs: Registers { h: m2.read(address.wrapping_add(1)), ..m2.regs }, ..m2 }
            } else if op1 == 6 {
                m1.write(address, m1.regs.a)
            } else {
                m1.set_a(m1.read(address))
            }
        }
    } else if op2 == 3 {
        if op1 % 2 == 0 {
            m.set_rp(op1 / 2, m.rp(op1 / 2).wrapping_add(1))
        } else {
            m.set_rp(op1 / 2, m.rp(op1 / 2).wrapping_sub(1))
        }
    } else if op2 == 4 {
        let before = m.reg8(op1);
        let after = before.wrapping_add(1);
        let m1 = m.set_reg8(op1, after);
        m1.set_f(inc8_flags(m1.regs.f, before, after))
    } else if op2 == 5 {
        let before = m.reg8(op1);
        let after = before.wrapping_sub(1);
        let m1 = m.set_reg8(op1, after);
        m1.set_f(dec8_flags(m1.regs.f, before, after))
    } else if op2 == 6 {
        let (value, m1) = m.fetch();
        m1.set_reg8(op1, value)
    } else {
        exec_accumulator_misc(m, op1)
    }
}

/// RLCA, RRCA, RLA, RRA, DAA, CPL, SCF, CCF.
pub open spec fn exec_accumulator_misc(m: Machine, op1: u8) -> Machine {
    let a = m.regs.a;
    let f = m.regs.f;
    if op1 == 0 {
        m.set_a(rotl8(a)).rotate_flags(bit_of(rotl8(a), 0))
    } else if op1 == 1 {
        m.set_a(rotr8(a)).rotate_flags(bit_of(rotr8(a), 7))
    } else if op1 == 2 {
        let result = if bit_of(f, CARRY) {
            (a << 1u8) | 1u8
        } else {
            a << 1u8
        };
        m.set_a(result).rotate_flags(bit_of(a, 7))
    } else if op1 == 3 {
        let result = if bit_of(f, CARRY) {
            (a >> 1u8) | 0x80u8
        } else {
            a >> 1u8
        };
        m.set_a(result).rotate_flags(bit_of(a, 0))
    } else if op1 == 4 {
        let diff = bcd_correction(a, f);
        let result = if bit_of(f, ADD_SUBTRACT) {
            a.wrapping_sub(diff)
        } else {
            a.wrapping_add(diff)
        };
        m.set_a(result).set_f(
            with_bit(
                with_bit(
                    with_bit(
                        with_bit(with_bit(f, CARRY, bcd_carry(a, f)), HALF_CARRY, bcd_half_carry(a, f)),
                        PARITY_OVERFLOW,
                        parity_even(result),
                    ),
                    ZERO,
                    result == 0,
                ),
                SIGN,
                bit_of(result, 7),
            ),
        )
    } else if op1 == 5 {
        m.set_a(!a).set_f(with_bit(with_bit(f, ADD_SUBTRACT, true), HALF_CARRY, true))
    } else if op1 == 6 {
        m.set_f(with_bit(with_bit(with_bit(f, ADD_SUBTRACT, false), HALF_CARRY, false), CARRY, true))
    } else {
        let carry = bit_of(f, CARRY);
        m.set_f(with_bit(with_bit(with_bit(f, ADD_SUBTRACT, false), HALF_CARRY, carry), CARRY, !carry))
    }
}

/// The instructions whose opcode has the group field 3, after the opcode was
/// fetched (`m` is already advanced past it). Prefixed instructions are
/// described by their own functions.
pub open spec fn exec_group3<B: Bus>(m: Machine, op1: u8, op2: u8) -> Machine {
    if op2 == 0 {
        if m.condition(op1) {
            m.ret()
        } else {
            m
        }
    } else if op2 == 1 {
        if op1 % 2 == 0 {
            let low = m.read(m.regs.sp);
            let high = m.read(m.regs.sp.wrapping_add(1));
            let m1 = m.set_sp(m.regs.sp.wrapping_add(1).wrapping_add(1));
            let value = pair_value(high, low);
            if op1 == 6 {
                Machine {
                    regs: Registers { a: (value / 256) as u8, f: (value % 256) as u8, ..m1.regs },
                    ..m1
                }
            } else {
                m1.set_rp(op1 / 2, value)
            }
        } else if op1 == 1 {
            m.ret()
        } else if op1 == 3 {
            let bc = m.bc();
            let de = m.de();
            let hl = m.hl();
            let m1 = m.set_bc(pair_value(m.regs.b_alt, m.regs.c_alt)).set_de(
                pair_value(m.regs.d_alt, m.regs.e_alt),
            ).set_hl(pair_value(m.regs.h_alt, m.regs.l_alt));
            Machine {
                regs: Registers {
                    b_alt: (bc / 256) as u8,
                    c_alt: (bc % 256) as u8,
                    d_alt: (de / 256) as u8,
                    e_alt: (de % 256) as u8,
                    h_alt: (hl / 256) as u8,
                    l_alt: (hl % 256) as u8,
                    ..m1.regs
                },
                ..m1
            }
        } else if op1 == 5 {
            m.set_pc(m.hl())
        } else {
            m
        }
    } else if op2 == 2 {
        let (address, m1) = m.fetch16();
        if m1.condition(op1) {
            m1.set_pc(address)
        } else {
            m1
        }
    } else if op2 == 3 {
        if op1 == 0 {
            let (address, m1) = m.fetch16();
            m1.set_pc(address)
        } else if op1 == 2 {
            let (n, m1) = m.fetch();
            m1.output::<B>(pair_value(m1.regs.a, n), m1.regs.a)
        } else if op1 == 3 {
            let (n, m1) = m.fetch();
            let (value, m2) = m1.input::<B>(pair_value(m1.regs.a, n));
            m2.set_a(value)
        } else if op1 == 4 {
            let sp = m.regs.sp;
            let l = m.regs.l;
            let h = m.regs.h;
            let m1 = Machine {
                regs: Registers { l: m.read(sp), h: m.read(sp.wrapping_add(1)), ..m.regs },
                ..m
            };
            m1.write(sp, l).write(sp.wrapping_add(1), h)
        } else if op1 == 5 {
            let hl = m.hl();
            m.set_hl(m.de()).set_de(hl)
        } else if op1 == 6 {
            Machine { regs: Registers { iff1: false, iff2: false, ..m.regs }, ..m }
        } else if op1 == 7 {
            Machine { regs: Registers { iff1: true, iff2: true, ..m.regs }, ..m }
        } else {
            m
        }
    } else if op2 == 4 {
        let (address, m1) = m.fetch16();
        if m1.condition(op1) {
            m1.call(address)
        } else {
            m1
        }
    } else if op2 == 5 {
        if op1 % 2 == 0 {
            let high = if op1 == 6 {
                m.regs.a
            } else if op1 == 0 {
                m.regs.b
            } else if op1 == 2 {
                m.regs.d
            } else {
                m.regs.h
            };
            let low = if op1 == 6 {
                m.regs.f
            } else if op1 == 0 {
                m.regs.c
            } else if op1 == 2 {
                m.regs.e
            } else {
                m.regs.l
            };
            let sp1 = m.regs.sp.wrapping_sub(1);
            let sp2 = sp1.wrapping_sub(1);
            m.set_sp(sp1).write(sp1, high).set_sp(sp2).write(sp2, low)
        } else if op1 == 1 {
            let (address, m1) = m.fetch16();
            m1.call(address)
        } else {
            m
        }
    } else if op2 == 6 {
        let (n, m1) = m.fetch();
        alu(m1, op1, n)
    } else {
        m.call((op1 as int * 8) as u16)
    }
}

/// Whether the interpreter implements the instruction at the program
/// counter. The opcode LD SP,HL, the CB-prefixed SLL and a number of ED-,
/// DD- and FD-prefixed opcodes are not implemented.
pub open spec fn supported(m: Machine) -> bool {
    let pc = m.regs.pc;
    let opcode = m.read(pc);
    let next = m.read(pc.wrapping_add(1));
    if opcode == 0xF9 {
        false
    } else if opcode == 0xCB {
        shift_opcode_supported(next)
    } else if opcode == 0xED {
        extended_opcode_supported(next)
    } else if opcode == 0xDD || opcode == 0xFD {
        index_opcode_supported(next, m.read(pc.wrapping_add(3)))
    } else {
        true
    }
}

/// Whether a CB-prefixed opcode is implemented: all but the group-0
/// operation 6 (SLL).
pub open spec fn shift_opcode_supported(opcode: u8) -> bool {
    !(opcode / 64 == 0 && (opcode / 8) % 8 == 6)
}

/// Whether an ED-prefixed opcode is implemented.
pub open spec fn extended_opcode_supported(opcode: u8) -> bool {
    let g = opcode / 64;
    let op1 = (opcode / 8) % 8;
    let op2 = opcode % 8;
    if g == 1 {
        if op2 == 4 {
            op1 == 0
        } else if op2 == 5 {
            op1 <= 1
        } else if op2 == 6 {
            op1 == 0 || op1 == 2 || op1 == 3
        } else if op2 == 7 {
            op1 <= 5
        } else {
            true
        }
    } else if g == 2 {
        op1 >= 4 && op2 <= 3
    } else {
        false
    }
}

/// Whether a DD- or FD-prefixed opcode is implemented; `closing` is the
/// opcode that ends a DD CB / FD CB instruction.
pub open spec fn index_opcode_supported(opcode: u8, closing: u8) -> bool {
    let g = opcode / 64;
    let op1 = (opcode / 8) % 8;
    let op2 = opcode % 8;
    if g == 0 {
        (op1 == 4 && (op2 == 1 || op2 == 2 || op2 == 3)) || (op1 == 5 && (op2 == 2 || op2
            == 3)) || (op1 == 6 && (op2 == 4 || op2 == 5 || op2 == 6)) || (op2 == 1 && op1 % 2
            == 1)
    } else if g == 1 {
        (op2 == 6 && op1 != 6) || (op1 == 6 && op2 != 6)
    } else if g == 2 {
        op2 == 6
    } else {
        (op1 == 7 && op2 == 1) || (op1 == 5 && op2 == 1) || (op1 == 4 && (op2 == 5 || op2
            == 1 || op2 == 3)) || (op1 == 1 && op2 == 3 && index_shift_opcode_supported(closing))
    }
}

/// Whether the closing opcode of a DD CB / FD CB instruction is implemented.
pub open spec fn index_shift_opcode_supported(opcode: u8) -> bool {
    let g = opcode / 64;
    let op1 = (opcode / 8) % 8;
    let op2 = opcode % 8;
    if g == 0 {
        op1 != 6
    } else if g == 1 {
        op2 == 6
    } else {
        true
    }
}

/// A CB-prefixed instruction; `m` is past both opcode bytes.
pub open spec fn exec_shift(m: Machine, opcode: u8) -> Machine {
    let g = opcode / 64;
    let op1 = (opcode / 8) % 8;
    let op2 = opcode % 8;
    let value = m.reg8(op2);
    if g == 0 {
        if op1 == 6 {
            m
        } else {
            let (result, carry) = shift_result(op1, value, m.flag(CARRY));
            m.set_f(shift_flags(m.regs.f, result, carry)).set_reg8(op2, result)
        }
    } else if g == 1 {
        m.set_f(bit_test_flags(m.regs.f, value, op1))
    } else if g == 2 {
        m.set_reg8(op2, with_bit(value, op1, false))
    } else {
        m.set_reg8(op2, with_bit(value, op1, true))
    }
}

/// The flags after ADC HL: those of the 16-bit addition, then P/V set on
/// signed overflow and Z, S describing the sum.
pub open spec fn adc16_flags(f: u8, augend: u16, addend: u16, carry: int) -> u8 {
    let sum = sum16(augend, addend, carry);
    let signed = signed16(augend) + signed16(addend) + carry;
    with_bit(
        with_bit(
            with_bit(add16_flags(f, augend, addend, carry), PARITY_OVERFLOW, signed < -32768 || signed > 32767),
            ZERO,
            sum == 0,
        ),
        SIGN,
        sum >= 32768,
    )
}

/// The flags after NEG of `before`.
pub open spec fn neg_flags(f: u8, before: u8) -> u8 {
    let result = 0u8.wrapping_sub(before);
    with_bit(
        with_bit(
            with_bit(
                with_bit(
                    with_bit(with_bit(f, SIGN, bit_of(result, 7)), ZERO, result == 0),
                    HALF_CARRY,
                    before % 16 != 0,
                ),
                PARITY_OVERFLOW,
                before == 0x80,
            ),
            ADD_SUBTRACT,
            true,
        ),
        CARRY,
        before != 0,
    )
}

/// An ED-prefixed instruction; `m` is past both opcode bytes.
pub open spec fn exec_extended<B: Bus>(m: Machine, opcode: u8) -> Machine {
    let g = opcode / 64;
    let op1 = (opcode / 8) % 8;
    let op2 = opcode % 8;
    if g == 1 {
        if op2 == 0 {
            let (value, m0) = m.input::<B>(m.bc());
            let m1 = m0.set_reg8(op1, value);
            m1.set_f(value_flags(m1.regs.f, value))
        } else if op2 == 1 {
            m.output::<B>(m.bc(), m.reg8(op1))
        } else if op2 == 2 {
            exec_hl_arithmetic(m, op1)
        } else if op2 == 3 {
            let (address, m1) = m.fetch16();
            if op1 % 2 == 0 {
                m1.write16(address, m1.rp(op1 / 2))
            } else {
                m1.set_rp(op1 / 2, m1.read16(address))
            }
        } else if op2 == 4 {
            if op1 == 0 {
                m.set_a(0u8.wrapping_sub(m.regs.a)).set_f(neg_flags(m.regs.f, m.regs.a))
            } else {
                m
            }
        } else if op2 == 5 {
            if op1 <= 1 {
                Machine { regs: Registers { iff1: m.regs.iff2, ..m.regs }, ..m }.ret()
            } else {
                m
            }
        } else if op2 == 6 {
            if op1 == 0 {
                Machine { regs: Registers { im: 0, ..m.regs }, ..m }
            } else if op1 == 2 {
                Machine { regs: Registers { im: 1, ..m.regs }, ..m }
            } else if op1 == 3 {
                Machine { regs: Registers { im: 2, ..m.regs }, ..m }
            } else {
                m
            }
        } else {
            exec_extended_misc(m, op1)
        }
    } else if g == 2 && op1 >= 4 && op2 <= 3 {
        exec_block::<B>(m, op1, op2)
    } else {
        m
    }
}

/// SBC HL, rp (`op1` even) and ADC HL, rp (`op1` odd).
pub open spec fn exec_hl_arithmetic(m: Machine, op1: u8) -> Machine {
    let hl = m.hl();
    let operand = m.rp(op1 / 2);
    let f = m.regs.f;
    if op1 % 2 == 0 {
        m.set_f(sub16_flags(f, hl, operand, carry_in(f, true))).set_hl(
            difference16(hl, operand, carry_in(f, true)),
        )
    } else {
        m.set_f(adc16_flags(f, hl, operand, carry_in(f, true))).set_hl(
            sum16(hl, operand, carry_in(f, true)),
        )
    }
}

/// The block transfer, search and I/O instructions: `op2` selects load,
/// compare, input or output, `op1` the direction (even: up) and whether the
/// instruction repeats (6 and 7).
pub open spec fn exec_block<B: Bus>(m: Machine, op1: u8, op2: u8) -> Machine {
    let forward = op1 % 2 == 0;
    let repeat = op1 >= 6;
    let m1 = if op2 == 0 {
        m.block_load(forward)
    } else if op2 == 1 {
        m.block_compare(forward)
    } else if op2 == 2 {
        m.block_input::<B>(forward)
    } else {
        m.block_output::<B>(forward)
    };
    let again = if op2 == 0 {
        m1.flag(PARITY_OVERFLOW)
    } else if op2 == 1 {
        m1.flag(PARITY_OVERFLOW) && !m1.flag(ZERO)
    } else {
        !m1.flag(ZERO)
    };
    if repeat && again {
        m1.set_pc(m1.regs.pc.wrapping_sub(2))
    } else {
        m1
    }
}

/// LD I,A; LD R,A; LD A,I; LD A,R; RRD; RLD.
pub open spec fn exec_extended_misc(m: Machine, op1: u8) -> Machine {
    let a = m.regs.a;
    if op1 == 0 {
        Machine { regs: Registers { i: a, ..m.regs }, ..m }
    } else if op1 == 1 {
        Machine { regs: Registers { r: a, ..m.regs }, ..m }
    } else if op1 == 2 {
        m.set_a(m.regs.i).set_f(load_ir_flags(m.regs.f, m.regs.i, m.regs.iff2))
    } else if op1 == 3 {
        m.set_a(m.regs.r).set_f(load_ir_flags(m.regs.f, m.regs.r, m.regs.iff2))
    } else if op1 == 4 || op1 == 5 {
        let value = m.read(m.hl());
        let new_value = if op1 == 5 {
            ((value & 0x0Fu8) << 4u8) | (a & 0x0Fu8)
        } else {
            ((a & 0x0Fu8) << 4u8) | (value >> 4u8)
        };
        let new_acc = if op1 == 5 {
            (a & 0xF0u8) | (value >> 4u8)
        } else {
            (a & 0xF0u8) | (value & 0x0Fu8)
        };
        m.write(m.hl(), new_value).set_a(new_acc).set_f(value_flags(m.regs.f, new_acc))
    } else {
        m
    }
}

/// A DD-prefixed (IX, `use_iy` false) or FD-prefixed (IY, `use_iy` true)
/// instruction; `m` is past both opcode bytes.
pub open spec fn exec_index<B: Bus>(m: Machine, use_iy: bool, opcode: u8) -> Machine {
    let g = opcode / 64;
    let op1 = (opcode / 8) % 8;
    let op2 = opcode % 8;
    let x = m.index_reg(use_iy);
    let f = m.regs.f;
    if g == 0 {
        if op1 == 4 && op2 == 1 {
            let (value, m1) = m.fetch16();
            m1.set_index_reg(use_iy, value)
        } else if op1 == 4 && op2 == 2 {
            let (address, m1) = m.fetch16();
            m1.write16(address, x)
        } else if op1 == 5 && op2 == 2 {
            let (address, m1) = m.fetch16();
            m1.set_index_reg(use_iy, m1.read16(address))
        } else if op1 == 6 && op2 == 6 {
            let (offset, m1) = m.fetch();
            let (value, m2) = m1.fetch();
            m2.write(displaced(x, offset), value)
        } else if op2 == 1 && op1 % 2 == 1 {
            let addend = if op1 == 5 {
                x
            } else {
                m.rp(op1 / 2)
            };
            m.set_f(add16_flags(f, x, addend, carry_in(f, false))).set_index_reg(
                use_iy,
                sum16(x, addend, carry_in(f, false)),
            )
        } else if op1 == 4 && op2 == 3 {
            m.set_index_reg(use_iy, x.wrapping_add(1))
        } else if op1 == 5 && op2 == 3 {
            m.set_index_reg(use_iy, x.wrapping_sub(1))
        } else if op1 == 6 && (op2 == 4 || op2 == 5) {
            let (offset, m1) = m.fetch();
            let address = displaced(x, offset);
            let before = m1.read(address);
            if op2 == 4 {
                let after = before.wrapping_add(1);
                m1.set_f(inc8_flags(f, before, after)).write(address, after)
            } else {
                let after = before.wrapping_sub(1);
                m1.set_f(dec8_flags(f, before, after)).write(address, after)
            }
        } else {
            m
        }
    } else if g == 1 {
        if op2 == 6 && op1 != 6 {
            let (offset, m1) = m.fetch();
            m1.set_reg8(op1, m1.read(displaced(x, offset)))
        } else if op1 == 6 && op2 != 6 {
            let (offset, m1) = m.fetch();
            m1.write(displaced(x, offset), m1.reg8(op2))
        } else {
            m
        }
    } else if g == 2 {
        if op2 == 6 {
            let (offset, m1) = m.fetch();
            alu(m1, op1, m1.read(displaced(x, offset)))
        } else {
            m
        }
    } else {
        if op1 == 7 && op2 == 1 {
            m.set_sp(x)
        } else if op1 == 5 && op2 == 1 {
            m.set_pc(x)
        } else if op1 == 4 && op2 == 5 {
            let sp = m.regs.sp.wrapping_sub(2);
            m.set_sp(sp).write16(sp, x)
        } else if op1 == 4 && op2 == 1 {
            let value = m.read16(m.regs.sp);
            m.set_sp(m.regs.sp.wrapping_add(2)).set_index_reg(use_iy, value)
        } else if op1 == 4 && op2 == 3 {
            let value = m.read16(m.regs.sp);
            m.write16(m.regs.sp, x).set_index_reg(use_iy, value)
        } else if op1 == 1 && op2 == 3 {
            exec_index_shift(m, use_iy)
        } else {
            m
        }
    }
}

/// A DD CB or FD CB instruction; `m` is past the two prefix bytes, at the
/// displacement.
pub open spec fn exec_index_shift(m: Machine, use_iy: bool) -> Machine {
    let (offset, m1) = m.fetch();
    let address = displaced(m.index_reg(use_iy), offset);
    let value = m1.read(address);
    let (closing, m2) = m1.fetch();
    let g = closing / 64;
    let op1 = (closing / 8) % 8;
    let op2 = closing % 8;
    if g == 0 {
        if op1 == 6 {
            m2
        } else {
            let (result, carry) = shift_result(op1, value, m2.flag(CARRY));
            let m3 = m2.set_f(shift_flags(m2.regs.f, result, carry)).write(address, result);
            if op2 == 6 {
                m3
            } else {
                m3.set_reg8(op2, result)
            }
        }
    } else if g == 1 {
        if op2 == 6 {
            m2.set_f(bit_test_flags(m2.regs.f, value, op1))
        } else {
            m2
        }
    } else {
        let result = with_bit(value, op1, g == 3);
        let m3 = m2.write(address, result);
        if op2 == 6 {
            m3
        } else {
            m3.set_reg8(op2, result)
        }
    }
}

/// One step of the processor: the instruction at the program counter is
/// fetched and executed. HALT only counts the refresh register and stops
/// the processor (the program counter stays on it).
pub open spec fn step_spec<B: Bus>(m: Machine) -> Machine {
    let opcode = m.read(m.regs.pc);
    let g = opcode / 64;
    let op1 = (opcode / 8) % 8;
    let op2 = opcode % 8;
    if opcode == 0x76 {
        Machine { regs: Registers { r: next_refresh(m.regs.r), halted: true, ..m.regs }, ..m }
    } else {
        let m1 = m.advance();
        if g == 0 {
            exec_group0(m1, op1, op2)
        } else if g == 1 {
            m1.set_reg8(op1, m1.reg8(op2))
        } else if g == 2 {
            alu(m1, op1, m1.reg8(op2))
        } else if opcode == 0xCB {
            let (next, m2) = m1.fetch();
            exec_shift(m2, next)
        } else if opcode == 0xED {
            let (next, m2) = m1.fetch();
            exec_extended::<B>(m2, next)
        } else if opcode == 0xDD || opcode == 0xFD {
            let (next, m2) = m1.fetch();
            exec_index::<B>(m2, opcode == 0xFD, next)
        } else {
            exec_group3::<B>(m1, op1, op2)
        }
    }
}

/// The machine after `count` steps, stopping early once it is halted.
pub open spec fn run_spec<B: Bus>(m: Machine, count: nat) -> Machine
    decreases count,
{
    if count == 0 || m.regs.halted {
        m
    } else {
        run_spec::<B>(step_spec::<B>(m), (count - 1) as nat)
    }
}

/// Every instruction that is executed within `count` steps, before the
/// processor halts, is implemented.
pub open spec fn runs_supported<B: Bus>(m: Machine, count: nat) -> bool
    decreases count,
{
    if count == 0 || m.regs.halted {
        true
    } else {
        supported(m) && runs_supported::<B>(step_spec::<B>(m), (count - 1) as nat)
    }
}

} // verus!
