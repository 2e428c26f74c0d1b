//! The mathematical model of the processor: its registers together with the
//! contents of memory and the state of the I/O ports, and the arithmetic and
//! flag rules of the instruction set stated over that model.

use vstd::prelude::*;
use crate::flags::{bit_of, with_bit, CARRY, ADD_SUBTRACT, PARITY_OVERFLOW, HALF_CARRY, ZERO, SIGN};
use crate::bus::Bus;
use crate::registers::{Registers, pair_value, high_byte, low_byte, next_refresh};

verus! {

/// The state of a processor and of the bus it is attached to.
pub struct Machine {
    pub regs: Registers,
    pub memory: Seq<u8>,
    pub ports: Seq<u8>,
}

impl Machine {
    /// The byte at `address`.
    pub open spec fn read(self, address: u16) -> u8 {
        self.memory[address as int]
    }

    /// The little-endian word at `address`.
    pub open spec fn read16(self, address: u16) -> u16 {
        pair_value(self.read(address.wrapping_add(1)), self.read(address))
    }

    /// The machine with `value` stored at `address`.
    pub open spec fn write(self, address: u16, value: u8) -> Machine {
        Machine { memory: self.memory.update(address as int, value), ..self }
    }

    /// The machine with the little-endian word `value` stored at `address`.
    pub open spec fn write16(self, address: u16, value: u16) -> Machine {
        self.write(address, low_byte(value)).write(address.wrapping_add(1), high_byte(value))
    }

    pub open spec fn flag(self, index: u8) -> bool {
        bit_of(self.regs.f, index)
    }

    pub open spec fn hl(self) -> u16 {
        pair_value(self.regs.h, self.regs.l)
    }

    pub open spec fn bc(self) -> u16 {
        pair_value(self.regs.b, self.regs.c)
    }

    pub open spec fn de(self) -> u16 {
        pair_value(self.regs.d, self.regs.e)
    }

    pub open spec fn set_a(self, value: u8) -> Machine {
        Machine { regs: Registers { a: value, ..self.regs }, ..self }
    }

    pub open spec fn set_f(self, value: u8) -> Machine {
        Machine { regs: Registers { f: value, ..self.regs }, ..self }
    }

    pub open spec fn set_b(self, value: u8) -> Machine {
        Machine { regs: Registers { b: value, ..self.regs }, ..self }
    }

    pub open spec fn set_pc(self, value: u16) -> Machine {
        Machine { regs: Registers { pc: value, ..self.regs }, ..self }
    }

    pub open spec fn set_sp(self, value: u16) -> Machine {
        Machine { regs: Registers { sp: value, ..self.regs }, ..self }
    }

    pub open spec fn set_bc(self, value: u16) -> Machine {
        Machine {
            regs: Registers { b: high_byte(value), c: low_byte(value), ..self.regs },
            ..self
        }
    }

    pub open spec fn set_de(self, value: u16) -> Machine {
        Machine {
            regs: Registers { d: high_byte(value), e: low_byte(value), ..self.regs },
            ..self
        }
    }

    pub open spec fn set_hl(self, value: u16) -> Machine {
        Machine {
            regs: Registers { h: high_byte(value), l: low_byte(value), ..self.regs },
            ..self
        }
    }

    /// The machine after the program counter moved past one opcode byte and
    /// the refresh register counted one memory cycle.
    pub open spec fn advance(self) -> Machine {
        Machine {
            regs: Registers {
                pc: self.regs.pc.wrapping_add(1),
                r: next_refresh(self.regs.r),
                ..self.regs
            },
            ..self
        }
    }

    /// The byte at the program counter, and the machine with the program
    /// counter moved past it.
    pub open spec fn fetch(self) -> (u8, Machine) {
        (self.read(self.regs.pc), self.set_pc(self.regs.pc.wrapping_add(1)))
    }

    /// The little-endian word at the program counter, and the machine with
    /// the program counter moved past it.
    pub open spec fn fetch16(self) -> (u16, Machine) {
        let (low, m1) = self.fetch();
        let (high, m2) = m1.fetch();
        (pair_value(high, low), m2)
    }

    /// The 8-bit operand that a three-bit register field names: B, C, D, E,
    /// H, L, the byte at HL, or A.
    pub open spec fn reg8(self, index: u8) -> u8 {
        if index == 0 {
            self.regs.b
        } else if index == 1 {
            self.regs.c
        } else if index == 2 {
            self.regs.d
        } else if index == 3 {
            self.regs.e
        } else if index == 4 {
            self.regs.h
        } else if index == 5 {
            self.regs.l
        } else if index == 6 {
            self.read(self.hl())
        } else {
            self.regs.a
        }
    }

    /// The machine with the operand that a three-bit register field names
    /// set to `value`.
    pub open spec fn set_reg8(self, index: u8, value: u8) -> Machine {
        if index == 0 {
            Machine { regs: Registers { b: value, ..self.regs }, ..self }
        } else if index == 1 {
            Machine { regs: Registers { c: value, ..self.regs }, ..self }
        } else if index == 2 {
            Machine { regs: Registers { d: value, ..self.regs }, ..self }
        } else if index == 3 {
            Machine { regs: Registers { e: value, ..self.regs }, ..self }
        } else if index == 4 {
            Machine { regs: Registers { h: value, ..self.regs }, ..self }
        } else if index == 5 {
            Machine { regs: Registers { l: value, ..self.regs }, ..self }
        } else if index == 6 {
            self.write(self.hl(), value)
        } else {
            self.set_a(value)
        }
    }

    /// The machine after a call to `address`: the program counter is pushed
    /// (low byte at the lower address) and replaced by `address`.
    pub open spec fn call(self, address: u16) -> Machine {
        let sp = self.regs.sp.wrapping_sub(2);
        self.set_sp(sp).write(sp, low_byte(self.regs.pc)).write(
            sp.wrapping_add(1),
            high_byte(self.regs.pc),
        ).set_pc(address)
    }

    /// The machine after a return: the program counter is popped from the
    /// stack.
    pub open spec fn ret(self) -> Machine {
        let low = self.read(self.regs.sp);
        let high = self.read(self.regs.sp.wrapping_add(1));
        self.set_sp(self.regs.sp.wrapping_add(2)).set_pc(pair_value(high, low))
    }
}

impl Machine {
    /// The flags after a rotation of the accumulator (RLCA, RRCA, RLA, RRA):
    /// C takes the bit shifted out, H and N are cleared.
    pub open spec fn rotate_flags(self, carry: bool) -> Machine {
        self.set_f(with_bit(with_bit(with_bit(self.regs.f, CARRY, carry), HALF_CARRY, false), ADD_SUBTRACT, false))
    }

    /// The flags after a logical operation whose result is `value`: Z and S
    /// describe it, C and N are cleared, P/V is its parity. H is set by AND
    /// and cleared by OR and XOR.
    pub open spec fn logic_flags(self, value: u8, half_carry: bool) -> Machine {
        self.set_f(
            with_bit(
                with_bit(
                    with_bit(
                        with_bit(with_bit(with_bit(self.regs.f, ZERO, value == 0), SIGN, value >= 128), CARRY, false),
                        ADD_SUBTRACT,
                        false,
                    ),
                    PARITY_OVERFLOW,
                    parity_even(value),
                ),
                HALF_CARRY,
                half_carry,
            ),
        )
    }

    /// LDI/LDD: copies the byte at HL to DE, moves HL and DE by `step`
    /// (+1 or -1), counts BC down; P/V tells whether BC is still non-zero.
    pub open spec fn block_load(self, forward: bool) -> Machine {
        let value = self.read(self.hl());
        let m1 = self.write(self.de(), value);
        let hl = if forward { m1.hl().wrapping_add(1) } else { m1.hl().wrapping_sub(1) };
        let de = if forward { m1.de().wrapping_add(1) } else { m1.de().wrapping_sub(1) };
        let m2 = m1.set_hl(hl).set_de(de).set_bc(m1.bc().wrapping_sub(1));
        m2.set_f(
            with_bit(
                with_bit(with_bit(m2.regs.f, HALF_CARRY, false), PARITY_OVERFLOW, m2.bc() != 0),
                ADD_SUBTRACT,
                false,
            ),
        )
    }

    /// CPI/CPD: compares A with the byte at HL, moves HL by one and counts
    /// BC down.
    pub open spec fn block_compare(self, forward: bool) -> Machine {
        let value = self.read(self.hl());
        let difference = self.regs.a.wrapping_sub(value);
        let hl = if forward { self.hl().wrapping_add(1) } else { self.hl().wrapping_sub(1) };
        let m1 = self.set_hl(hl).set_bc(self.bc().wrapping_sub(1));
        m1.set_f(
            with_bit(
                with_bit(
                    with_bit(
                        with_bit(with_bit(m1.regs.f, SIGN, bit_of(difference, 7)), ZERO, difference == 0),
                        HALF_CARRY,
                        self.regs.a % 16 < value % 16,
                    ),
                    PARITY_OVERFLOW,
                    m1.bc() != 0,
                ),
                ADD_SUBTRACT,
                true,
            ),
        )
    }

    /// The flags after a block input or output step: S and Z describe B,
    /// H and P/V are cleared, N is bit 7 of the byte transferred.
    pub open spec fn block_io_flags(self, value: u8) -> Machine {
        self.set_f(
            with_bit(
                with_bit(
                    with_bit(
                        with_bit(with_bit(self.regs.f, SIGN, bit_of(self.regs.b, 7)), ZERO, self.regs.b == 0),
                        HALF_CARRY,
                        false,
                    ),
                    PARITY_OVERFLOW,
                    false,
                ),
                ADD_SUBTRACT,
                bit_of(value, 7),
            ),
        )
    }

    /// The byte that an input from `port` yields, and the machine with the
    /// ports as the input leaves them.
    pub open spec fn input<B: Bus>(self, port: u16) -> (u8, Machine) {
        (B::port_input(self.ports, port), Machine { ports: B::port_after_input(self.ports, port), ..self })
    }

    /// INI/IND: inputs a byte from port BC into the byte at HL, moves HL by
    /// one and counts B down.
    pub open spec fn block_input<B: Bus>(self, forward: bool) -> Machine {
        let (value, m0) = self.input::<B>(self.bc());
        let m1 = m0.write(m0.hl(), value);
        let hl = if forward { m1.hl().wrapping_add(1) } else { m1.hl().wrapping_sub(1) };
        let m2 = m1.set_hl(hl).set_b(m1.regs.b.wrapping_sub(1));
        m2.block_io_flags(value)
    }

    /// OUTI/OUTD: counts B down, then outputs the byte at HL to port BC and
    /// moves HL by one.
    pub open spec fn block_output<B: Bus>(self, forward: bool) -> Machine {
        let value = self.read(self.hl());
        let m1 = self.set_b(self.regs.b.wrapping_sub(1));
        let m2 = Machine { ports: B::port_output(m1.ports, m1.bc(), value), ..m1 };
        let hl = if forward { m2.hl().wrapping_add(1) } else { m2.hl().wrapping_sub(1) };
        m2.set_hl(hl).block_io_flags(value)
    }
}

/// The result and the carry out of the shift or rotation that `operation`
/// selects (the first operand field of a CB-prefixed opcode): RLC, RRC, RL,
/// RR, SLA, SRA, (unused), SRL. `carry` is the carry flag before the operation.
pub open spec fn shift_result(operation: u8, value: u8, carry: bool) -> (u8, bool) {
    if operation == 0 {
        (rotl8(value), bit_of(value, 7))
    } else if operation == 1 {
        (rotr8(value), bit_of(value, 0))
    } else if operation == 2 {
        ((value << 1u8) | (if carry { 1u8 } else { 0u8 }), bit_of(value, 7))
    } else if operation == 3 {
        ((value >> 1u8) | (if carry { 0x80u8 } else { 0u8 }), bit_of(value, 0))
    } else if operation == 4 {
        (value << 1u8, bit_of(value, 7))
    } else if operation == 5 {
        ((value >> 1u8) | (value & 0x80u8), bit_of(value, 0))
    } else {
        (value >> 1u8, bit_of(value, 0))
    }
}

/// The value of a byte read as a two's complement number.
pub open spec fn signed8(value: u8) -> int {
    if value < 128 {
        value as int
    } else {
        value as int - 256
    }
}

/// The value of a word read as a two's complement number.
pub open spec fn signed16(value: u16) -> int {
    if value < 32768 {
        value as int
    } else {
        value as int - 65536
    }
}

/// `address` moved by the signed displacement `offset`, wrapping around the
/// 64 KiB address space.
pub open spec fn displaced(address: u16, offset: u8) -> u16 {
    ((address as int + signed8(offset) + 65536) % 65536) as u16
}

/// The carry that an arithmetic instruction adds in: the carry flag when the
/// instruction uses it, zero otherwise.
pub open spec fn carry_in(f: u8, use_carry: bool) -> int {
    if use_carry && bit_of(f, CARRY) {
        1
    } else {
        0
    }
}

/// Eight-bit sum of `augend`, `addend` and `carry`.
pub open spec fn sum8(augend: u8, addend: u8, carry: int) -> u8 {
    ((augend + addend + carry) % 256) as u8
}

/// The flags after an 8-bit addition: C is the carry out of bit 7, N is
/// cleared, P/V is set when the signed sum is out of range, H is the carry out
/// of bit 3, Z and S describe the sum.
pub open spec fn add8_flags(f: u8, augend: u8, addend: u8, carry: int) -> u8 {
    let sum = sum8(augend, addend, carry);
    let signed = signed8(augend) + signed8(addend) + carry;
    with_bit(
        with_bit(
            with_bit(
                with_bit(
                    with_bit(with_bit(f, CARRY, augend + addend + carry > 255), ADD_SUBTRACT, false),
                    PARITY_OVERFLOW,
                    signed < -128 || signed > 127,
                ),
                HALF_CARRY,
                augend % 16 + addend % 16 + carry > 15,
            ),
            ZERO,
            sum == 0,
        ),
        SIGN,
        sum >= 128,
    )
}

/// Eight-bit difference of `minuend` and `subtrahend` plus `borrow`.
pub open spec fn difference8(minuend: u8, subtrahend: u8, borrow: int) -> u8 {
    ((minuend - subtrahend - borrow + 512) % 256) as u8
}

/// The flags after an 8-bit subtraction: C is the borrow into bit 7, N is
/// set, P/V is set when the signed difference is out of range, H is the
/// borrow into bit 3, Z and S describe the difference.
pub open spec fn sub8_flags(f: u8, minuend: u8, subtrahend: u8, borrow: int) -> u8 {
    let difference = difference8(minuend, subtrahend, borrow);
    let signed = signed8(minuend) - signed8(subtrahend) - borrow;
    with_bit(
        with_bit(
            with_bit(
                with_bit(
                    with_bit(with_bit(f, CARRY, minuend < subtrahend + borrow), ADD_SUBTRACT, true),
                    PARITY_OVERFLOW,
                    signed < -128 || signed > 127,
                ),
                HALF_CARRY,
                minuend % 16 < subtrahend % 16 + borrow,
            ),
            ZERO,
            difference == 0,
        ),
        SIGN,
        difference >= 128,
    )
}

/// Sixteen-bit sum of `augend`, `addend` and `carry`.
pub open spec fn sum16(augend: u16, addend: u16, carry: int) -> u16 {
    ((augend + addend + carry) % 65536) as u16
}

/// The flags after a 16-bit addition: C is the carry out of bit 15, N is
/// cleared and H is the carry out of bit 11; the other flags keep their value.
pub open spec fn add16_flags(f: u8, augend: u16, addend: u16, carry: int) -> u8 {
    with_bit(
        with_bit(with_bit(f, CARRY, augend + addend + carry > 65535), ADD_SUBTRACT, false),
        HALF_CARRY,
        augend % 4096 + addend % 4096 + carry > 4095,
    )
}

/// Sixteen-bit difference of `minuend` and `subtrahend` plus `borrow`.
pub open spec fn difference16(minuend: u16, subtrahend: u16, borrow: int) -> u16 {
    ((minuend - subtrahend - borrow + 131072) % 65536) as u16
}

/// The flags after a 16-bit subtraction with borrow: C is the borrow into bit
/// 15, N is set, P/V is set when the signed difference is out of range, H is
/// the borrow into bit 11, Z and S describe the difference.
pub open spec fn sub16_flags(f: u8, minuend: u16, subtrahend: u16, borrow: int) -> u8 {
    let difference = difference16(minuend, subtrahend, borrow);
    let signed = signed16(minuend) - signed16(subtrahend) - borrow;
    with_bit(
        with_bit(
            with_bit(
                with_bit(
                    with_bit(with_bit(f, CARRY, minuend < subtrahend + borrow), ADD_SUBTRACT, true),
                    PARITY_OVERFLOW,
                    signed < -32768 || signed > 32767,
                ),
                HALF_CARRY,
                minuend % 4096 < subtrahend % 4096 + borrow,
            ),
            ZERO,
            difference == 0,
        ),
        SIGN,
        difference >= 32768,
    )
}

/// The number of one bits of a byte.
pub open spec fn ones(value: u8) -> int {
    (value & 1) as int + ((value >> 1) & 1) as int + ((value >> 2) & 1) as int + ((value >> 3)
        & 1) as int + ((value >> 4) & 1) as int + ((value >> 5) & 1) as int + ((value >> 6) & 1) as int
        + ((value >> 7) & 1) as int
}

/// Even parity: the byte has an even number of one bits.
pub open spec fn parity_even(value: u8) -> bool {
    ones(value) % 2 == 0
}

/// The correction that DAA adds to (or, after a subtraction, subtracts from)
/// the accumulator: 6 fixes the low digit, 0x60 the high digit.
pub open spec fn bcd_correction(a: u8, f: u8) -> u8 {
    let low: int = if bit_of(f, HALF_CARRY) || a % 16 >= 10 {
        6
    } else {
        0
    };
    let high: int = if bit_of(f, CARRY) || a > 0x99 {
        0x60
    } else {
        0
    };
    (low + high) as u8
}

/// The half-carry flag after DAA.
pub open spec fn bcd_half_carry(a: u8, f: u8) -> bool {
    if bit_of(f, ADD_SUBTRACT) {
        bit_of(f, HALF_CARRY) && a % 16 <= 5
    } else {
        !bit_of(f, HALF_CARRY) && a % 16 >= 10
    }
}

/// The carry flag after DAA.
pub open spec fn bcd_carry(a: u8, f: u8) -> bool {
    bit_of(f, CARRY) || a > 0x99
}

/// Byte rotated left by one bit.
pub open spec fn rotl8(value: u8) -> u8 {
    (value << 1u8) | (value >> 7u8)
}

/// Byte rotated right by one bit.
pub open spec fn rotr8(value: u8) -> u8 {
    (value >> 1u8) | (value << 7u8)
}

/// The flags after a shift or rotation of a register through the CB prefix:
/// S, Z and P/V describe the result, H and N are cleared, C is the bit
/// shifted out.
pub open spec fn shift_flags(f: u8, result: u8, carry: bool) -> u8 {
    with_bit(
        with_bit(
            with_bit(
                with_bit(
                    with_bit(with_bit(f, SIGN, bit_of(result, 7)), ZERO, result == 0),
                    HALF_CARRY,
                    false,
                ),
                PARITY_OVERFLOW,
                parity_even(result),
            ),
            ADD_SUBTRACT,
            false,
        ),
        CARRY,
        carry,
    )
}

/// The flags after BIT tests bit `index` of `value`: S is set when the bit is
/// one, Z and P/V when it is zero; H is set and N cleared.
pub open spec fn bit_test_flags(f: u8, value: u8, index: u8) -> u8 {
    let set = bit_of(value, index);
    with_bit(
        with_bit(
            with_bit(with_bit(with_bit(f, SIGN, set), ZERO, !set), HALF_CARRY, true),
            PARITY_OVERFLOW,
            !set,
        ),
        ADD_SUBTRACT,
        false,
    )
}

/// Facts about single bytes that the flag rules rely on.
pub proof fn lemma_byte_facts()
    by (bit_vector)
    ensures
        forall|v: u8| #[trigger] (v & 0x80u8) == 0x80u8 <==> v >= 128u8,
        forall|v: u8| #[trigger] bit_of(v, 7) <==> v >= 128u8,
        forall|v: u8| #[trigger] bit_of(v, 0) <==> v % 2u8 == 1u8,
        forall|v: u8| #[trigger] (v & 0x0Fu8) == v % 16u8,
        forall|v: u8| #[trigger] (v & 1u8) == 1u8 <==> v % 2u8 == 1u8,
        forall|v: u8| #[trigger] (v >> 1u8) == v / 2u8,
        forall|v: u8| #[trigger] (v >> 4u8) == v / 16u8,
        forall|v: u8| #[trigger] (v & 1u8) <= 1u8,
{
}

} // verus!
