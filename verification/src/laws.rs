//! Properties of the instruction set that span several operations.

use vstd::prelude::*;
use crate::bus::{Bus, TestBus, MEMORY_SIZE};
use crate::flags::{bit_of, CARRY, HALF_CARRY, ADD_SUBTRACT};
use crate::machine::{Machine, sum8, difference8, sub8_flags, rotl8, rotr8, bcd_correction, bcd_half_carry, bcd_carry, add8_flags};
use crate::flags::{with_bit, lemma_with_bit, PARITY_OVERFLOW, ZERO, SIGN};
use crate::registers::{Registers, pair_value, high_byte, low_byte};
use crate::cpu::Cpu;
use crate::trace::{register_name, register_fields, Fields, StateView, cell, hex_byte, hex_word, mark_text, condition_name, condition_field, byte_operand, disassembly};
use crate::semantics::{step_spec, exec_group0, exec_group3, exec_accumulator_misc, exec_extended, exec_block};

verus! {

/// Writing an operand through a register field and reading it through the
/// same field gives back what was written.
pub proof fn lemma_register_field_round_trip(m: Machine, index: u8, value: u8)
    requires
        index < 8,
        m.memory.len() == MEMORY_SIZE,
    ensures
        m.set_reg8(index, value).reg8(index) == value,
{
}

/// Storing a little-endian word and loading it from the same address gives
/// the word back.
pub proof fn lemma_word_round_trip(m: Machine, address: u16, value: u16)
    requires
        m.memory.len() == MEMORY_SIZE,
    ensures
        m.write16(address, value).read16(address) == value,
{
}

/// On a [`TestBus`], an input from a port gives the byte last output to a
/// port with the same low byte: only the low byte selects one of the 256
/// ports.
pub proof fn lemma_test_bus_port_round_trip(bus: &TestBus, port: u16, other: u16, value: u8)
    requires
        port % 256 == other % 256,
    ensures
        TestBus::port_input(TestBus::port_output(bus.ports(), port, value), other) == value,
{
    bus.lemma_port_count();
}

/// On any bus, a 16-bit read at an address after a 16-bit write there gives
/// the word back, low byte at the address and high byte at the next one
/// (wrapping from 0xFFFF to 0x0000); every other address keeps its byte.
pub proof fn lemma_write16_then_read16<B: Bus>(bus: &B, address: u16, value: u16, other: u16)
    ensures
        ({
            let after = bus.memory().update(address as int, (value % 256) as u8).update(
                address.wrapping_add(1) as int,
                (value / 256) as u8,
            );
            &&& after[address as int] as int + 256 * after[address.wrapping_add(1) as int] as int == value
            &&& after[address as int] == (value % 256) as u8
            &&& after[address.wrapping_add(1) as int] == (value / 256) as u8
            &&& other != address && other != address.wrapping_add(1) ==> after[other as int] == bus.memory()[other as int]
        }),
{
    bus.lemma_memory_size();
    assert(address != address.wrapping_add(1));
}

/// Subtracting what was added gives the original accumulator back.
pub proof fn lemma_sub_undoes_add(a: u8, b: u8)
    ensures
        difference8(sum8(a, b, 0), b, 0) == a,
{
}

/// Rotating the accumulator left and then right (RLCA, RRCA) gives it back.
pub proof fn lemma_rotations_undo(a: u8)
    ensures
        rotr8(rotl8(a)) == a,
        rotl8(rotr8(a)) == a,
{
    assert(rotr8(rotl8(a)) == a && rotl8(rotr8(a)) == a) by (bit_vector);
}

/// CPL complements the accumulator, so two CPLs give it back.
pub proof fn lemma_cpl_twice(m: Machine)
    ensures
        exec_accumulator_misc(exec_accumulator_misc(m, 5), 5).regs.a == m.regs.a,
{
    let a = m.regs.a;
    assert(!(!a) == a) by (bit_vector);
}

/// EX DE,HL exchanges DE and HL and changes nothing else; done twice it
/// changes nothing.
pub proof fn lemma_exchange_de_hl<B: Bus>(m: Machine)
    ensures
        exec_group3::<B>(m, 5, 3).de() == m.hl(),
        exec_group3::<B>(m, 5, 3).hl() == m.de(),
        exec_group3::<B>(exec_group3::<B>(m, 5, 3), 5, 3) == m,
{
}

/// EXX exchanges BC, DE and HL with their alternates; done twice it changes
/// nothing.
pub proof fn lemma_exx<B: Bus>(m: Machine)
    ensures
        exec_group3::<B>(m, 3, 1).bc() == pair_value(m.regs.b_alt, m.regs.c_alt),
        exec_group3::<B>(m, 3, 1).regs.b_alt == m.regs.b,
        exec_group3::<B>(m, 3, 1).regs.c_alt == m.regs.c,
        exec_group3::<B>(exec_group3::<B>(m, 3, 1), 3, 1) == m,
{
}

/// EX AF,AF' exchanges AF with its alternate; done twice it changes
/// nothing.
pub proof fn lemma_exchange_af(m: Machine)
    ensures
        exec_group0(m, 1, 0).regs.a == m.regs.a_alt,
        exec_group0(m, 1, 0).regs.f == m.regs.f_alt,
        exec_group0(exec_group0(m, 1, 0), 1, 0) == m,
{
}

/// The 16-bit value that PUSH and POP move for the two-bit pair field `p`:
/// BC, DE, HL, AF.
pub open spec fn stack_pair(m: Machine, p: u8) -> u16 {
    if p == 3 {
        pair_value(m.regs.a, m.regs.f)
    } else {
        m.rp(p)
    }
}

/// One step on PUSH of the pair field `p`: the pair is stored below the
/// stack pointer, high byte first, and the stack pointer moves down by two.
proof fn lemma_step_push<B: Bus>(m: Machine, p: u8)
    requires
        p < 4,
        m.read(m.regs.pc) == 0xC5 + 16 * p,
    ensures
        ({
            let value = stack_pair(m, p);
            let sp1 = m.regs.sp.wrapping_sub(1);
            let sp2 = sp1.wrapping_sub(1);
            step_spec::<B>(m) == m.advance().set_sp(sp2).write(sp1, high_byte(value)).write(sp2, low_byte(value))
        }),
{
    let opcode = m.read(m.regs.pc);
    assert(opcode / 64 == 3 && (opcode / 8) % 8 == 2 * p && opcode % 8 == 5);
    let value = stack_pair(m, p);
    assert(high_byte(value) == (if p == 3 { m.regs.a } else if p == 0 { m.regs.b } else if p == 1 { m.regs.d } else { m.regs.h }));
    assert(low_byte(value) == (if p == 3 { m.regs.f } else if p == 0 { m.regs.c } else if p == 1 { m.regs.e } else { m.regs.l }));
}

/// One step on POP of the pair field `q`: the pair takes the word at the
/// stack pointer and the stack pointer moves up by two; memory, the other
/// pairs and the index registers stay.
proof fn lemma_step_pop<B: Bus>(m: Machine, q: u8)
    requires
        q < 4,
        m.read(m.regs.pc) == 0xC1 + 16 * q,
    ensures
        ({
            let after = step_spec::<B>(m);
            &&& stack_pair(after, q) == pair_value(m.read(m.regs.sp.wrapping_add(1)), m.read(m.regs.sp))
            &&& after.regs.sp == m.regs.sp.wrapping_add(1).wrapping_add(1)
            &&& after.regs.pc == m.regs.pc.wrapping_add(1)
            &&& after.memory == m.memory
            &&& after.regs.ix == m.regs.ix
            &&& after.regs.iy == m.regs.iy
            &&& forall|k: u8| k < 4 && k != q ==> #[trigger] stack_pair(after, k) == stack_pair(m, k)
        }),
{
    let opcode = m.read(m.regs.pc);
    assert(opcode / 64 == 3 && (opcode / 8) % 8 == 2 * q && opcode % 8 == 1);
}

/// A PUSH followed by a POP moves the pushed pair into the popped pair and
/// leaves the stack pointer where it was; the other pairs, the index
/// registers and every byte but the two below the stack pointer stay (as
/// long as the two pushed bytes do not overwrite the POP instruction itself).
#[verifier::rlimit(50)]
#[verifier::spinoff_prover]
pub proof fn lemma_push_then_pop<B: Bus>(cpu: &Cpu<B>, p: u8, q: u8)
    requires
        p < 4,
        q < 4,
        cpu.machine().read(cpu.registers.pc) == 0xC5 + 16 * p,
        cpu.machine().read(cpu.registers.pc.wrapping_add(1)) == 0xC1 + 16 * q,
        cpu.registers.pc.wrapping_add(1) != cpu.registers.sp.wrapping_sub(1),
        cpu.registers.pc.wrapping_add(1) != cpu.registers.sp.wrapping_sub(2),
    ensures
        ({
            let m = cpu.machine();
            let after = step_spec::<B>(step_spec::<B>(m));
            &&& stack_pair(after, q) == stack_pair(m, p)
            &&& after.regs.sp == m.regs.sp
            &&& after.regs.pc == m.regs.pc.wrapping_add(2)
            &&& after.regs.ix == m.regs.ix
            &&& after.regs.iy == m.regs.iy
            &&& forall|k: u8| k < 4 && k != q ==> #[trigger] stack_pair(after, k) == stack_pair(m, k)
            &&& forall|address: u16|
                address != m.regs.sp.wrapping_sub(1) && address != m.regs.sp.wrapping_sub(2)
                    ==> #[trigger] after.read(address) == m.read(address)
        }),
{
    let m = cpu.machine();
    cpu.bus.lemma_memory_size();
    lemma_step_push::<B>(m, p);
    let m1 = step_spec::<B>(m);
    let value = stack_pair(m, p);
    let sp1 = m.regs.sp.wrapping_sub(1);
    let sp2 = sp1.wrapping_sub(1);
    assert(sp1 != sp2);
    assert(m1.regs.pc == m.regs.pc.wrapping_add(1));
    assert(m1.read(m1.regs.pc) == 0xC1 + 16 * q);
    assert(m1.regs.sp == sp2);
    assert(sp2.wrapping_add(1) == sp1);
    assert(m1.read(sp2) == low_byte(value));
    assert(m1.read(sp1) == high_byte(value));
    lemma_step_pop::<B>(m1, q);
    assert(sp2.wrapping_add(1).wrapping_add(1) == m.regs.sp);
    assert forall|k: u8| k < 4 && k != q implies #[trigger] stack_pair(step_spec::<B>(m1), k) == stack_pair(m, k) by {
        assert(stack_pair(step_spec::<B>(m1), k) == stack_pair(m1, k));
    }
}

/// A CALL followed by a RET in the called routine returns to the
/// instruction after the CALL with the stack pointer restored (as long as
/// the return address pushed does not overwrite the RET itself).
pub proof fn lemma_call_then_ret<B: Bus>(cpu: &Cpu<B>)
    requires
        cpu.machine().read(cpu.registers.pc) == 0xCD,
        ({
            let m = cpu.machine();
            let target = pair_value(m.read(m.regs.pc.wrapping_add(2)), m.read(m.regs.pc.wrapping_add(1)));
            &&& m.read(target) == 0xC9
            &&& target != m.regs.sp.wrapping_sub(1)
            &&& target != m.regs.sp.wrapping_sub(2)
        }),
    ensures
        ({
            let m = cpu.machine();
            let after = step_spec::<B>(step_spec::<B>(m));
            &&& after.regs.pc == m.regs.pc.wrapping_add(3)
            &&& after.regs.sp == m.regs.sp
        }),
{
    let m = cpu.machine();
    cpu.bus.lemma_memory_size();
    let m1 = step_spec::<B>(m);
    assert(m1.read(m1.regs.pc) == 0xC9);
}

/// RET undoes CALL ([`Cpu::call`], [`Cpu::ret`]): right after a call to any
/// address, a return gives back the program counter and the stack pointer
/// that the call started from.
pub proof fn lemma_ret_undoes_call<B: Bus>(cpu: &Cpu<B>, address: u16)
    ensures
        cpu.machine().call(address).ret().regs.pc == cpu.registers.pc,
        cpu.machine().call(address).ret().regs.sp == cpu.registers.sp,
{
    cpu.bus.lemma_memory_size();
    let sp = cpu.registers.sp.wrapping_sub(2);
    assert(sp != sp.wrapping_add(1));
    assert(sp.wrapping_add(2) == cpu.registers.sp);
}

/// The flags that CP (and SUB) leave, bit by bit: Z when the operands are
/// equal, C when the accumulator is below the operand, N set, S the sign of
/// the difference, H the borrow from the low digit.
proof fn lemma_compare_flag_bits(f: u8, a: u8, v: u8)
    ensures
        ({
            let flags = sub8_flags(f, a, v, 0);
            &&& bit_of(flags, ZERO) == (a == v)
            &&& bit_of(flags, CARRY) == (a < v)
            &&& bit_of(flags, ADD_SUBTRACT)
            &&& bit_of(flags, SIGN) == (a.wrapping_sub(v) >= 128)
            &&& bit_of(flags, HALF_CARRY) == (a % 16 < v % 16)
        }),
{
    let difference = difference8(a, v, 0);
    let signed = crate::machine::signed8(a) - crate::machine::signed8(v);
    assert(a.wrapping_sub(v) == difference);
    let f1 = with_bit(f, CARRY, a < v);
    let f2 = with_bit(f1, ADD_SUBTRACT, true);
    let f3 = with_bit(f2, PARITY_OVERFLOW, signed < -128 || signed > 127);
    let f4 = with_bit(f3, HALF_CARRY, a % 16 < v % 16);
    let f5 = with_bit(f4, ZERO, difference == 0);
    lemma_with_bit(f, CARRY, a < v, CARRY);
    lemma_with_bit(f, CARRY, a < v, ADD_SUBTRACT);
    lemma_with_bit(f, CARRY, a < v, HALF_CARRY);
    lemma_with_bit(f, CARRY, a < v, ZERO);
    lemma_with_bit(f, CARRY, a < v, SIGN);
    lemma_with_bit(f1, ADD_SUBTRACT, true, CARRY);
    lemma_with_bit(f1, ADD_SUBTRACT, true, ADD_SUBTRACT);
    lemma_with_bit(f1, ADD_SUBTRACT, true, HALF_CARRY);
    lemma_with_bit(f1, ADD_SUBTRACT, true, ZERO);
    lemma_with_bit(f1, ADD_SUBTRACT, true, SIGN);
    lemma_with_bit(f2, PARITY_OVERFLOW, signed < -128 || signed > 127, CARRY);
    lemma_with_bit(f2, PARITY_OVERFLOW, signed < -128 || signed > 127, ADD_SUBTRACT);
    lemma_with_bit(f2, PARITY_OVERFLOW, signed < -128 || signed > 127, HALF_CARRY);
    lemma_with_bit(f2, PARITY_OVERFLOW, signed < -128 || signed > 127, ZERO);
    lemma_with_bit(f2, PARITY_OVERFLOW, signed < -128 || signed > 127, SIGN);
    lemma_with_bit(f3, HALF_CARRY, a % 16 < v % 16, CARRY);
    lemma_with_bit(f3, HALF_CARRY, a % 16 < v % 16, ADD_SUBTRACT);
    lemma_with_bit(f3, HALF_CARRY, a % 16 < v % 16, HALF_CARRY);
    lemma_with_bit(f3, HALF_CARRY, a % 16 < v % 16, ZERO);
    lemma_with_bit(f3, HALF_CARRY, a % 16 < v % 16, SIGN);
    lemma_with_bit(f4, ZERO, difference == 0, CARRY);
    lemma_with_bit(f4, ZERO, difference == 0, ADD_SUBTRACT);
    lemma_with_bit(f4, ZERO, difference == 0, HALF_CARRY);
    lemma_with_bit(f4, ZERO, difference == 0, ZERO);
    lemma_with_bit(f4, ZERO, difference == 0, SIGN);
    lemma_with_bit(f5, SIGN, difference >= 128, CARRY);
    lemma_with_bit(f5, SIGN, difference >= 128, ADD_SUBTRACT);
    lemma_with_bit(f5, SIGN, difference >= 128, HALF_CARRY);
    lemma_with_bit(f5, SIGN, difference >= 128, ZERO);
    lemma_with_bit(f5, SIGN, difference >= 128, SIGN);
}

/// CP r (the operand a register field names, the byte at HL for field 6)
/// compares the accumulator with the operand: the accumulator and every
/// register but F, PC and R stay, memory stays, Z tells equality, C tells
/// that the accumulator is below the operand, N is set, S is the sign of the
/// difference, H the borrow from the low digit; PC moves past the opcode.
pub proof fn lemma_compare_register<B: Bus>(cpu: &Cpu<B>, r: u8)
    requires
        r < 8,
        cpu.machine().read(cpu.registers.pc) == 0xB8 + r,
    ensures
        ({
            let m = cpu.machine();
            let v = m.reg8(r);
            let a = m.regs.a;
            let after = step_spec::<B>(m);
            &&& after.regs == Registers { f: after.regs.f, pc: after.regs.pc, r: after.regs.r, ..m.regs }
            &&& after.regs.f == sub8_flags(m.regs.f, a, v, 0)
            &&& after.flag(ZERO) == (a == v)
            &&& after.flag(CARRY) == (a < v)
            &&& after.flag(ADD_SUBTRACT)
            &&& after.flag(SIGN) == (a.wrapping_sub(v) >= 128)
            &&& after.flag(HALF_CARRY) == (a % 16 < v % 16)
            &&& after.regs.pc == m.regs.pc.wrapping_add(1)
            &&& after.memory == m.memory
            &&& after.ports == m.ports
        }),
{
    let m = cpu.machine();
    let opcode = m.read(m.regs.pc);
    assert(opcode / 64 == 2 && (opcode / 8) % 8 == 7 && opcode % 8 == r);
    assert(m.advance().reg8(r) == m.reg8(r));
    lemma_compare_flag_bits(m.regs.f, m.regs.a, m.reg8(r));
}

/// CP n compares the accumulator with the byte after the opcode, with the
/// same flags as CP r; PC moves past both bytes.
pub proof fn lemma_compare_immediate<B: Bus>(cpu: &Cpu<B>)
    requires
        cpu.machine().read(cpu.registers.pc) == 0xFE,
    ensures
        ({
            let m = cpu.machine();
            let v = m.read(m.regs.pc.wrapping_add(1));
            let a = m.regs.a;
            let after = step_spec::<B>(m);
            &&& after.regs == Registers { f: after.regs.f, pc: after.regs.pc, r: after.regs.r, ..m.regs }
            &&& after.regs.f == sub8_flags(m.regs.f, a, v, 0)
            &&& after.flag(ZERO) == (a == v)
            &&& after.flag(CARRY) == (a < v)
            &&& after.flag(ADD_SUBTRACT)
            &&& after.flag(SIGN) == (a.wrapping_sub(v) >= 128)
            &&& after.flag(HALF_CARRY) == (a % 16 < v % 16)
            &&& after.regs.pc == m.regs.pc.wrapping_add(1).wrapping_add(1)
            &&& after.memory == m.memory
            &&& after.ports == m.ports
        }),
{
    let m = cpu.machine();
    lemma_compare_flag_bits(m.regs.f, m.regs.a, m.read(m.regs.pc.wrapping_add(1)));
}

/// JP cc,nn jumps to nn exactly when condition `cc` (NZ, Z, NC, C, PO, PE,
/// P, M) holds, and otherwise moves past its three bytes; flags, stack
/// pointer and memory stay.
pub proof fn lemma_conditional_jump<B: Bus>(cpu: &Cpu<B>, cc: u8)
    requires
        cc < 8,
        cpu.machine().read(cpu.registers.pc) == 0xC2 + 8 * cc,
    ensures
        ({
            let m = cpu.machine();
            let pc = m.regs.pc;
            let after = step_spec::<B>(m);
            &&& after.regs.pc == (if m.condition(cc) { m.read16(pc.wrapping_add(1)) } else { pc.wrapping_add(3) })
            &&& after.regs.f == m.regs.f
            &&& after.regs.sp == m.regs.sp
            &&& after.memory == m.memory
        }),
{
    let m = cpu.machine();
    let opcode = m.read(m.regs.pc);
    assert(opcode / 64 == 3 && (opcode / 8) % 8 == cc && opcode % 8 == 2);
    assert(m.regs.pc.wrapping_add(1).wrapping_add(1) == m.regs.pc.wrapping_add(2));
    assert(m.regs.pc.wrapping_add(1).wrapping_add(1).wrapping_add(1) == m.regs.pc.wrapping_add(3));
}

/// CALL cc,nn calls nn exactly when condition `cc` holds: the stack pointer
/// moves down by two and the word there is the address after the CALL;
/// otherwise it moves past its three bytes and changes neither the stack
/// pointer nor memory. The flags stay.
pub proof fn lemma_conditional_call<B: Bus>(cpu: &Cpu<B>, cc: u8)
    requires
        cc < 8,
        cpu.machine().read(cpu.registers.pc) == 0xC4 + 8 * cc,
    ensures
        ({
            let m = cpu.machine();
            let pc = m.regs.pc;
            let sp = m.regs.sp;
            let after = step_spec::<B>(m);
            &&& after.regs.f == m.regs.f
            &&& m.condition(cc) ==> {
                &&& after.regs.pc == m.read16(pc.wrapping_add(1))
                &&& after.regs.sp == sp.wrapping_sub(2)
                &&& after.read16(after.regs.sp) == pc.wrapping_add(3)
            }
            &&& !m.condition(cc) ==> {
                &&& after.regs.pc == pc.wrapping_add(3)
                &&& after.regs.sp == sp
                &&& after.memory == m.memory
            }
        }),
{
    let m = cpu.machine();
    cpu.bus.lemma_memory_size();
    let opcode = m.read(m.regs.pc);
    assert(opcode / 64 == 3 && (opcode / 8) % 8 == cc && opcode % 8 == 4);
    let pc = m.regs.pc;
    assert(pc.wrapping_add(1).wrapping_add(1) == pc.wrapping_add(2));
    assert(pc.wrapping_add(1).wrapping_add(1).wrapping_add(1) == pc.wrapping_add(3));
    let sp2 = m.regs.sp.wrapping_sub(2);
    assert(sp2 != sp2.wrapping_add(1));
}

/// RET cc returns exactly when condition `cc` holds: the program counter
/// takes the word at the stack pointer and the stack pointer moves up by
/// two; otherwise it moves past its one byte and the stack pointer stays.
/// Flags and memory stay.
pub proof fn lemma_conditional_return<B: Bus>(cpu: &Cpu<B>, cc: u8)
    requires
        cc < 8,
        cpu.machine().read(cpu.registers.pc) == 0xC0 + 8 * cc,
    ensures
        ({
            let m = cpu.machine();
            let after = step_spec::<B>(m);
            &&& after.regs.pc == (if m.condition(cc) { m.read16(m.regs.sp) } else { m.regs.pc.wrapping_add(1) })
            &&& after.regs.sp == (if m.condition(cc) { m.regs.sp.wrapping_add(2) } else { m.regs.sp })
            &&& after.regs.f == m.regs.f
            &&& after.memory == m.memory
        }),
{
    let m = cpu.machine();
    let opcode = m.read(m.regs.pc);
    assert(opcode / 64 == 3 && (opcode / 8) % 8 == cc && opcode % 8 == 0);
}

/// A step keeps the size of memory.
#[verifier::rlimit(80)]
pub proof fn lemma_step_keeps_memory_size<B: Bus>(m: Machine)
    requires
        m.memory.len() == MEMORY_SIZE,
    ensures
        step_spec::<B>(m).memory.len() == m.memory.len(),
{
}

/// The correction DAA applies follows the usual DAA table, indexed by the
/// carry flag, the high digit, the half-carry flag and the low digit:
/// no correction for two decimal digits without carries, 06 when the low
/// digit needs it, 60 when the high digit needs it, 66 when both do.
pub proof fn lemma_daa_correction_table(a: u8, f: u8)
    ensures
        ({
            let c = bit_of(f, CARRY);
            let h = bit_of(f, HALF_CARRY);
            let high = a / 16;
            let low = a % 16;
            let diff = bcd_correction(a, f);
            &&& (!c && !h && high <= 9 && low <= 9) ==> diff == 0x00
            &&& (!c && h && high <= 9 && low <= 9) ==> diff == 0x06
            &&& (!c && high <= 8 && low >= 10) ==> diff == 0x06
            &&& (!c && !h && high >= 10 && low <= 9) ==> diff == 0x60
            &&& (c && !h && low <= 9) ==> diff == 0x60
            &&& (c && h && low <= 9) ==> diff == 0x66
            &&& (c && low >= 10) ==> diff == 0x66
            &&& (!c && high >= 9 && low >= 10) ==> diff == 0x66
            &&& (!c && h && high >= 10 && low <= 9) ==> diff == 0x66
        }),
{
}

/// The half-carry flag DAA leaves: set after an addition whose low digit is
/// A-F without a half carry, and after a subtraction with a half carry whose
/// low digit is 0-5; clear otherwise.
pub proof fn lemma_daa_half_carry_table(a: u8, f: u8)
    ensures
        ({
            let n = bit_of(f, ADD_SUBTRACT);
            let h = bit_of(f, HALF_CARRY);
            let low = a % 16;
            &&& (!n && low <= 9) ==> !bcd_half_carry(a, f)
            &&& (!n && !h && low >= 10) ==> bcd_half_carry(a, f)
            &&& (!n && h) ==> !bcd_half_carry(a, f)
            &&& (n && h && low <= 5) ==> bcd_half_carry(a, f)
            &&& (n && (!h || low >= 6)) ==> !bcd_half_carry(a, f)
        }),
{
}

/// The carry flag DAA leaves: kept when set, and set when the accumulator
/// is above 99 in decimal terms.
pub proof fn lemma_daa_carry_table(a: u8, f: u8)
    ensures
        ({
            let c = bit_of(f, CARRY);
            let high = a / 16;
            let low = a % 16;
            &&& c ==> bcd_carry(a, f)
            &&& (!c && high <= 9 && low <= 9) ==> !bcd_carry(a, f)
            &&& (!c && high <= 8 && low >= 10) ==> !bcd_carry(a, f)
            &&& (!c && high >= 9 && low >= 10) ==> bcd_carry(a, f)
            &&& (!c && high >= 10 && low <= 9) ==> bcd_carry(a, f)
        }),
{
}

/// Whether a byte holds two decimal digits.
pub open spec fn is_bcd(value: u8) -> bool {
    value / 16 <= 9 && value % 16 <= 9
}

/// The number that a byte of two decimal digits holds.
pub open spec fn bcd_value(value: u8) -> int {
    (value / 16) * 10 + value % 16
}

/// The byte of two decimal digits that holds `n` (below 100).
pub open spec fn bcd_byte(n: int) -> u8 {
    ((n / 10) * 16 + n % 10) as u8
}

/// The arithmetic behind DAA after an addition of two decimal-coded bytes,
/// on 16-bit words.
proof fn lemma_daa_arithmetic(a: u16, b: u16)
    by (bit_vector)
    requires
        a < 256u16,
        b < 256u16,
        a / 16u16 <= 9u16,
        a % 16u16 <= 9u16,
        b / 16u16 <= 9u16,
        b % 16u16 <= 9u16,
    ensures
        ({
            let full = (a + b) as u16;
            let sum = full % 256u16;
            let half = ((a % 16u16) + (b % 16u16)) as u16 > 15u16;
            let carry = full > 255u16;
            let low: u16 = if half || sum % 16u16 >= 10u16 {
                6u16
            } else {
                0u16
            };
            let high: u16 = if carry || sum > 0x99u16 {
                0x60u16
            } else {
                0u16
            };
            let total = ((a / 16u16) * 10u16 + a % 16u16 + (b / 16u16) * 10u16 + b % 16u16) as u16;
            &&& ((sum + low + high) as u16) % 256u16 == (((total % 100u16) / 10u16) * 16u16 + (total % 100u16) % 10u16) as u16
            &&& (carry || sum > 0x99u16) == (total >= 100u16)
        }),
{
}

/// The carry and half-carry flags after an 8-bit addition without carry in.
proof fn lemma_add8_carries(f: u8, a: u8, b: u8)
    ensures
        bit_of(add8_flags(f, a, b, 0), HALF_CARRY) == (a % 16 + b % 16 > 15),
        bit_of(add8_flags(f, a, b, 0), CARRY) == (a + b > 255),
{
    let sum = sum8(a, b, 0);
    let signed = crate::machine::signed8(a) + crate::machine::signed8(b);
    let f1 = with_bit(f, CARRY, a + b > 255);
    let f2 = with_bit(f1, ADD_SUBTRACT, false);
    let f3 = with_bit(f2, PARITY_OVERFLOW, signed < -128 || signed > 127);
    let f4 = with_bit(f3, HALF_CARRY, a % 16 + b % 16 > 15);
    let f5 = with_bit(f4, ZERO, sum == 0);
    lemma_with_bit(f, CARRY, a + b > 255, HALF_CARRY);
    lemma_with_bit(f1, ADD_SUBTRACT, false, HALF_CARRY);
    lemma_with_bit(f2, PARITY_OVERFLOW, signed < -128 || signed > 127, HALF_CARRY);
    lemma_with_bit(f3, HALF_CARRY, a % 16 + b % 16 > 15, HALF_CARRY);
    lemma_with_bit(f4, ZERO, sum == 0, HALF_CARRY);
    lemma_with_bit(f5, SIGN, sum >= 128, HALF_CARRY);
    lemma_with_bit(f, CARRY, a + b > 255, CARRY);
    lemma_with_bit(f1, ADD_SUBTRACT, false, CARRY);
    lemma_with_bit(f2, PARITY_OVERFLOW, signed < -128 || signed > 127, CARRY);
    lemma_with_bit(f3, HALF_CARRY, a % 16 + b % 16 > 15, CARRY);
    lemma_with_bit(f4, ZERO, sum == 0, CARRY);
    lemma_with_bit(f5, SIGN, sum >= 128, CARRY);
}

/// Adding two decimal-coded bytes with ADD and then applying DAA gives the
/// decimal-coded sum modulo 100, and the carry tells whether the sum
/// reached 100.
#[verifier::spinoff_prover]
#[verifier::rlimit(40)]
pub proof fn lemma_daa_after_add(a: u8, b: u8, f: u8)
    requires
        is_bcd(a),
        is_bcd(b),
    ensures
        ({
            let sum = sum8(a, b, 0);
            let flags = add8_flags(f, a, b, 0);
            let diff = bcd_correction(sum, flags);
            let total = bcd_value(a) + bcd_value(b);
            &&& sum.wrapping_add(diff) == bcd_byte(total % 100)
            &&& bcd_carry(sum, flags) == (total >= 100)
        }),
{
    lemma_add8_carries(f, a, b);
    lemma_daa_arithmetic(a as u16, b as u16);
    let flags = add8_flags(f, a, b, 0);
    let sum = sum8(a, b, 0);
    let half = a % 16 + b % 16 > 15;
    let carry = a + b > 255;
    assert(bit_of(flags, HALF_CARRY) == half);
    assert(bit_of(flags, CARRY) == carry);
    let low: int = if half || sum % 16 >= 10 { 6 } else { 0 };
    let high: int = if carry || sum > 0x99 { 0x60 } else { 0 };
    assert(bcd_correction(sum, flags) == (low + high) as u8);
    let total = bcd_value(a) + bcd_value(b);
    let ghost ua = a as u16;
    let ghost ub = b as u16;
    assert(ua / 16u16 == a / 16);
    assert(ua % 16u16 == a % 16);
    assert(total == ((ua / 16u16) * 10u16 + ua % 16u16 + (ub / 16u16) * 10u16 + ub % 16u16) as u16);
    assert(sum == ((ua + ub) as u16) % 256u16);
    assert(bcd_carry(sum, flags) == (total >= 100));
    let ghost full = (ua + ub) as u16;
    let ghost usum = full % 256u16;
    let ghost ulow: u16 = if half || usum % 16u16 >= 10u16 { 6u16 } else { 0u16 };
    let ghost uhigh: u16 = if carry || usum > 0x99u16 { 0x60u16 } else { 0u16 };
    let ghost utotal = ((ua / 16u16) * 10u16 + ua % 16u16 + (ub / 16u16) * 10u16 + ub % 16u16) as u16;
    assert(usum == sum);
    assert(ulow == low);
    assert(uhigh == high);
    assert(utotal == total);
    assert(((usum + ulow + uhigh) as u16) % 256u16 == (((utotal % 100u16) / 10u16) * 16u16 + (utotal % 100u16) % 10u16) as u16);
    let n = total % 100;
    assert(0 <= n < 100);
    assert(((n / 10) * 16 + n % 10) <= 153);
    assert(sum.wrapping_add((low + high) as u8) == (sum + low + high) % 256);
}

/// NEG negates the accumulator, so two NEGs give it back.
pub proof fn lemma_neg_twice<B: Bus>(m: Machine)
    ensures
        exec_extended::<B>(exec_extended::<B>(m, 0x44), 0x44).regs.a == m.regs.a,
{
}

/// INC r followed by DEC r gives the operand back.
pub proof fn lemma_inc_then_dec(m: Machine, r: u8)
    requires
        r < 8,
        m.memory.len() == MEMORY_SIZE,
    ensures
        exec_group0(exec_group0(m, r, 4), r, 5).reg8(r) == m.reg8(r),
{
}

/// LDIR copies one byte per step and repeats (moves the program counter back
/// onto itself) exactly while BC has not counted down to zero.
pub proof fn lemma_ldir_repeats_until_bc_is_zero<B: Bus>(m: Machine)
    ensures
        ({
            let after = exec_block::<B>(m, 6, 0);
            &&& after.bc() == m.bc().wrapping_sub(1)
            &&& after.regs.pc == (if m.bc() != 1 {
                m.regs.pc.wrapping_sub(2)
            } else {
                m.regs.pc
            })
        }),
{
    let m1 = m.block_load(true);
    assert(m1.bc() == m.bc().wrapping_sub(1));
    let busy = m1.bc() != 0;
    let f0 = m.regs.f;
    lemma_with_bit(f0, HALF_CARRY, false, PARITY_OVERFLOW);
    lemma_with_bit(with_bit(f0, HALF_CARRY, false), PARITY_OVERFLOW, busy, PARITY_OVERFLOW);
    lemma_with_bit(with_bit(with_bit(f0, HALF_CARRY, false), PARITY_OVERFLOW, busy), ADD_SUBTRACT, false, PARITY_OVERFLOW);
    assert(m1.flag(PARITY_OVERFLOW) == busy);
}


/// `base` moved by `offset` read as a two's complement byte (-128 to 127),
/// modulo 2^16.
pub open spec fn offset_address(base: u16, offset: u8) -> u16 {
    let signed: int = if offset >= 128 { offset as int - 256 } else { offset as int };
    ((base as int + signed + 65536) % 65536) as u16
}

/// The 16-bit register pair that a two-bit pair field names: BC, DE, HL, SP.
pub open spec fn named_pair(m: Machine, p: u8) -> u16 {
    if p == 0 {
        pair_value(m.regs.b, m.regs.c)
    } else if p == 1 {
        pair_value(m.regs.d, m.regs.e)
    } else if p == 2 {
        pair_value(m.regs.h, m.regs.l)
    } else {
        m.regs.sp
    }
}

/// The carry flag as a number.
pub open spec fn carry_value(m: Machine) -> int {
    if m.flag(CARRY) { 1 } else { 0 }
}

/// The result and the carry out of the CB-prefixed shift or rotation `op`
/// (RLC, RRC, RL, RR, SLA, SRA, -, SRL) of `v`, in arithmetic terms:
/// doubling drops bit 7, halving drops bit 0.
pub open spec fn shifted(op: u8, v: u8, carry: bool) -> (int, bool) {
    let c: int = if carry { 1 } else { 0 };
    if op == 0 {
        ((2 * v) % 256 + v / 128, v >= 128)
    } else if op == 1 {
        (v / 2 + (v % 2) * 128, v % 2 == 1)
    } else if op == 2 {
        ((2 * v) % 256 + c, v >= 128)
    } else if op == 3 {
        (v / 2 + c * 128, v % 2 == 1)
    } else if op == 4 {
        ((2 * v) % 256, v >= 128)
    } else if op == 5 {
        (v / 2 + (v / 128) * 128, v % 2 == 1)
    } else {
        (v as int / 2, v % 2 == 1)
    }
}

/// The bitwise shifts and rotations of a byte in arithmetic terms.
proof fn lemma_shift_arithmetic(v: u8)
    by (bit_vector)
    ensures
        ((v << 1u8) | (v >> 7u8)) == ((v % 128u8) * 2u8 + v / 128u8) as u8,
        ((v >> 1u8) | (v << 7u8)) == (v / 2u8 + (v % 2u8) * 128u8) as u8,
        ((v << 1u8) | 1u8) == ((v % 128u8) * 2u8 + 1u8) as u8,
        ((v << 1u8) | 0u8) == ((v % 128u8) * 2u8) as u8,
        ((v >> 1u8) | 0x80u8) == (v / 2u8 + 128u8) as u8,
        ((v >> 1u8) | 0u8) == v / 2u8,
        (v << 1u8) == ((v % 128u8) * 2u8) as u8,
        ((v >> 1u8) | (v & 0x80u8)) == (v / 2u8 + (v / 128u8) * 128u8) as u8,
        (v >> 1u8) == v / 2u8,
{
}

/// A CB-prefixed shift or rotation stores its result in the operand it read
/// (the byte at HL for field 6) and puts the bit shifted out into the carry
/// flag.
#[verifier::rlimit(50)]
#[verifier::spinoff_prover]
pub proof fn lemma_shift_stores_its_result<B: Bus>(cpu: &Cpu<B>, op: u8, r: u8)
    requires
        op < 8,
        op != 6,
        r < 8,
        cpu.machine().read(cpu.registers.pc) == 0xCB,
        cpu.machine().read(cpu.registers.pc.wrapping_add(1)) == 8 * op + r,
    ensures
        ({
            let m = cpu.machine();
            let after = step_spec::<B>(m);
            let (value, carry) = shifted(op, m.reg8(r), m.flag(CARRY));
            &&& after.reg8(r) == value
            &&& after.flag(CARRY) == carry
            &&& after.regs.pc == m.regs.pc.wrapping_add(1).wrapping_add(1)
        }),
{
    let m = cpu.machine();
    cpu.bus.lemma_memory_size();
    let v = m.reg8(r);
    lemma_shift_arithmetic(v);
    crate::machine::lemma_byte_facts();
    let opcode = m.read(m.regs.pc.wrapping_add(1));
    assert(opcode / 64 == 0 && (opcode / 8) % 8 == op && opcode % 8 == r);
    let m2 = m.advance().fetch().1;
    assert(m2.reg8(r) == v);
    let (result, carry) = crate::machine::shift_result(op, v, m2.flag(CARRY));
    let f2 = crate::machine::shift_flags(m2.regs.f, result, carry);
    lemma_with_bit(with_bit(with_bit(with_bit(with_bit(with_bit(m2.regs.f, SIGN, bit_of(result, 7)), ZERO, result == 0), HALF_CARRY, false), PARITY_OVERFLOW, crate::machine::parity_even(result)), ADD_SUBTRACT, false), CARRY, carry, CARRY);
    assert(bit_of(f2, CARRY) == carry);
    assert(m2.flag(CARRY) == m.flag(CARRY));
    assert(result as int == shifted(op, v, m.flag(CARRY)).0);
}

/// LD r,(IX+d) and LD r,(IY+d) load the byte at the index register moved by
/// the signed displacement d; memory stays.
#[verifier::rlimit(50)]
#[verifier::spinoff_prover]
pub proof fn lemma_indexed_load<B: Bus>(cpu: &Cpu<B>, r: u8)
    requires
        r < 8,
        r != 6,
        cpu.machine().read(cpu.registers.pc) == 0xDD || cpu.machine().read(cpu.registers.pc) == 0xFD,
        cpu.machine().read(cpu.registers.pc.wrapping_add(1)) == 0x46 + 8 * r,
    ensures
        ({
            let m = cpu.machine();
            let x = if m.read(m.regs.pc) == 0xFD { m.regs.iy } else { m.regs.ix };
            let d = m.read(m.regs.pc.wrapping_add(1).wrapping_add(1));
            let after = step_spec::<B>(m);
            &&& after.reg8(r) == m.read(offset_address(x, d))
            &&& after.memory == m.memory
        }),
{
    let m = cpu.machine();
    let opcode = m.read(m.regs.pc.wrapping_add(1));
    assert(opcode / 64 == 1 && (opcode / 8) % 8 == r && opcode % 8 == 6);
    let d = m.read(m.regs.pc.wrapping_add(1).wrapping_add(1));
    let x = if m.read(m.regs.pc) == 0xFD { m.regs.iy } else { m.regs.ix };
    assert(crate::machine::displaced(x, d) == offset_address(x, d));
}

/// LD (IX+d),r and LD (IY+d),r store the register at the index register
/// moved by the signed displacement d, the address that LD r,(X+d) reads,
/// and change no other byte.
#[verifier::rlimit(50)]
#[verifier::spinoff_prover]
pub proof fn lemma_indexed_store<B: Bus>(cpu: &Cpu<B>, r: u8)
    requires
        r < 8,
        r != 6,
        cpu.machine().read(cpu.registers.pc) == 0xDD || cpu.machine().read(cpu.registers.pc) == 0xFD,
        cpu.machine().read(cpu.registers.pc.wrapping_add(1)) == 0x70 + r,
    ensures
        ({
            let m = cpu.machine();
            let x = if m.read(m.regs.pc) == 0xFD { m.regs.iy } else { m.regs.ix };
            let d = m.read(m.regs.pc.wrapping_add(1).wrapping_add(1));
            let after = step_spec::<B>(m);
            after.memory == m.memory.update(offset_address(x, d) as int, m.reg8(r))
        }),
{
    let m = cpu.machine();
    let opcode = m.read(m.regs.pc.wrapping_add(1));
    assert(opcode / 64 == 1 && (opcode / 8) % 8 == 6 && opcode % 8 == r);
    let d = m.read(m.regs.pc.wrapping_add(1).wrapping_add(1));
    let x = if m.read(m.regs.pc) == 0xFD { m.regs.iy } else { m.regs.ix };
    assert(crate::machine::displaced(x, d) == offset_address(x, d));
}

/// ADD HL,rp, ADC HL,rp and SBC HL,rp add or subtract the pair that the
/// two-bit field names (BC, DE, HL, SP), with the carry for ADC and SBC,
/// modulo 2^16.
#[verifier::rlimit(50)]
#[verifier::spinoff_prover]
pub proof fn lemma_hl_arithmetic_uses_named_pair<B: Bus>(cpu: &Cpu<B>, p: u8)
    requires
        p < 4,
    ensures
        ({
            let m = cpu.machine();
            let pc = m.regs.pc;
            let hl = pair_value(m.regs.h, m.regs.l);
            let operand = named_pair(m, p);
            let c = carry_value(m);
            let after = step_spec::<B>(m);
            let result = pair_value(after.regs.h, after.regs.l) as int;
            &&& m.read(pc) == 0x09 + 16 * p ==> result == (hl + operand) % 65536
            &&& m.read(pc) == 0xED && m.read(pc.wrapping_add(1)) == 0x4A + 16 * p ==> result == (hl + operand + c) % 65536
            &&& m.read(pc) == 0xED && m.read(pc.wrapping_add(1)) == 0x42 + 16 * p ==> result == (hl - operand - c + 131072) % 65536
        }),
{
    let m = cpu.machine();
    let pc = m.regs.pc;
    if m.read(pc) == 0x09 + 16 * p {
        let opcode = m.read(pc);
        assert(opcode / 64 == 0 && (opcode / 8) % 8 == 2 * p + 1 && opcode % 8 == 1);
    }
    if m.read(pc) == 0xED {
        let opcode = m.read(pc.wrapping_add(1));
        if opcode == 0x4A + 16 * p {
            assert(opcode / 64 == 1 && (opcode / 8) % 8 == 2 * p + 1 && opcode % 8 == 2);
        }
        if opcode == 0x42 + 16 * p {
            assert(opcode / 64 == 1 && (opcode / 8) % 8 == 2 * p && opcode % 8 == 2);
        }
    }
}

/// JR cc,e (cc = NZ, Z, NC, C) jumps by the signed displacement e from the
/// address after the instruction exactly when condition cc holds, and
/// otherwise moves past its two bytes.
pub proof fn lemma_relative_jump_condition<B: Bus>(cpu: &Cpu<B>, k: u8)
    requires
        k < 4,
        cpu.machine().read(cpu.registers.pc) == 0x20 + 8 * k,
    ensures
        ({
            let m = cpu.machine();
            let next = m.regs.pc.wrapping_add(1).wrapping_add(1);
            let e = m.read(m.regs.pc.wrapping_add(1));
            step_spec::<B>(m).regs.pc == (if m.condition(k) { offset_address(next, e) } else { next })
        }),
{
    let m = cpu.machine();
    let opcode = m.read(m.regs.pc);
    assert(opcode / 64 == 0 && (opcode / 8) % 8 == k + 4 && opcode % 8 == 0);
    let next = m.regs.pc.wrapping_add(1).wrapping_add(1);
    let e = m.read(m.regs.pc.wrapping_add(1));
    assert(crate::machine::displaced(next, e) == offset_address(next, e));
}


/// Each value column of a trace line shows the value under its title in
/// the column titles (pc of the instruction shown; sp; the flags C, N, P/V,
/// H, Z, S; a, b, c, d, e, h, l, w, z; ix; iy), is highlighted when that same
/// value changed, and is underlined when the previous instruction affects
/// that same value.
pub proof fn lemma_columns_show_their_values(current: StateView, previous: StateView)
    ensures
        cell(current, previous, 0) == (hex_word(previous.pc), false, previous.inst_fields.contains(Fields::Pc)),
        cell(current, previous, 1) == (hex_word(current.sp), current.sp != previous.sp, previous.inst_fields.contains(Fields::Sp)),
        cell(current, previous, 2) == (mark_text(current.cf), current.cf != previous.cf, previous.inst_fields.contains(Fields::Cf)),
        cell(current, previous, 3) == (mark_text(current.nf), current.nf != previous.nf, previous.inst_fields.contains(Fields::Nf)),
        cell(current, previous, 4) == (mark_text(current.pf), current.pf != previous.pf, previous.inst_fields.contains(Fields::Pf)),
        cell(current, previous, 5) == (mark_text(current.hf), current.hf != previous.hf, previous.inst_fields.contains(Fields::Hf)),
        cell(current, previous, 6) == (mark_text(current.zf), current.zf != previous.zf, previous.inst_fields.contains(Fields::Zf)),
        cell(current, previous, 7) == (mark_text(current.sf), current.sf != previous.sf, previous.inst_fields.contains(Fields::Sf)),
        cell(current, previous, 8) == (hex_byte(current.a), current.a != previous.a, previous.inst_fields.contains(Fields::A)),
        cell(current, previous, 9) == (hex_byte(current.b), current.b != previous.b, previous.inst_fields.contains(Fields::B)),
        cell(current, previous, 10) == (hex_byte(current.c), current.c != previous.c, previous.inst_fields.contains(Fields::C)),
        cell(current, previous, 11) == (hex_byte(current.d), current.d != previous.d, previous.inst_fields.contains(Fields::D)),
        cell(current, previous, 12) == (hex_byte(current.e), current.e != previous.e, previous.inst_fields.contains(Fields::E)),
        cell(current, previous, 13) == (hex_byte(current.h), current.h != previous.h, previous.inst_fields.contains(Fields::H)),
        cell(current, previous, 14) == (hex_byte(current.l), current.l != previous.l, previous.inst_fields.contains(Fields::L)),
        cell(current, previous, 15) == (hex_byte(current.w), current.w != previous.w, previous.inst_fields.contains(Fields::W)),
        cell(current, previous, 16) == (hex_byte(current.z), current.z != previous.z, previous.inst_fields.contains(Fields::Z)),
        cell(current, previous, 17) == (hex_word(current.ix), current.ix != previous.ix, previous.inst_fields.contains(Fields::Ix)),
        cell(current, previous, 18) == (hex_word(current.iy), current.iy != previous.iy, previous.inst_fields.contains(Fields::Iy)),
{
}

/// The names of the conditions that the disassembler prints follow the
/// conditions that the processor tests: conditions 0 to 7 test Z, C, P/V and
/// S in pairs, the even one for a clear flag (its name starts with `N`), the
/// odd one for a set flag; the fields they read are those flags.
pub proof fn lemma_condition_names_follow_conditions(m: Machine, cc: u8)
    requires
        cc < 8,
    ensures
        ({
            let (flag, letter, field) = if cc / 2 == 0 {
                (ZERO, "Z"@, Fields::Zf)
            } else if cc / 2 == 1 {
                (CARRY, "C"@, Fields::Cf)
            } else if cc / 2 == 2 {
                (PARITY_OVERFLOW, "P"@, Fields::Pf)
            } else {
                (SIGN, "S"@, Fields::Sf)
            };
            &&& m.condition(cc) == (m.flag(flag) == (cc % 2 == 1))
            &&& condition_name(cc) == (if cc % 2 == 0 { "N"@ + letter } else { letter })
            &&& condition_field(cc) == field
        }),
{
    reveal_strlit("N");
    reveal_strlit("Z");
    reveal_strlit("C");
    reveal_strlit("P");
    reveal_strlit("S");
    reveal_strlit("NZ");
    reveal_strlit("NC");
    reveal_strlit("NP");
    reveal_strlit("NS");
    assert("N"@ + "Z"@ =~= "NZ"@);
    assert("N"@ + "C"@ =~= "NC"@);
    assert("N"@ + "P"@ =~= "NP"@);
    assert("N"@ + "S"@ =~= "NS"@);
}

/// The disassembly of JR cc,e (opcodes 0x20, 0x28, 0x30, 0x38) names the
/// condition that the processor tests for it ([`lemma_relative_jump_condition`])
/// and lists the program counter and that condition's flag.
pub proof fn lemma_relative_jump_disassembly(k: u8, low: u8, high: u8)
    requires
        k < 4,
    ensures
        disassembly((0x20 + 8 * k) as u8, low, high) == ("JR "@ + condition_name(k) + ", "@ + byte_operand(low), seq![Fields::Pc, condition_field(k)]),
{
    let opcode = (0x20 + 8 * k) as u8;
    assert(opcode / 64 == 0 && (opcode / 8) % 8 == k + 4 && opcode % 8 == 0);
    reveal_strlit("JR ");
    reveal_strlit(", ");
    reveal_strlit("NZ");
    reveal_strlit("Z");
    reveal_strlit("NC");
    reveal_strlit("C");
    reveal_strlit("JR NZ, ");
    reveal_strlit("JR Z, ");
    reveal_strlit("JR NC, ");
    reveal_strlit("JR C, ");
    assert("JR "@ + "NZ"@ + ", "@ =~= "JR NZ, "@);
    assert("JR "@ + "Z"@ + ", "@ =~= "JR Z, "@);
    assert("JR "@ + "NC"@ + ", "@ =~= "JR NC, "@);
    assert("JR "@ + "C"@ + ", "@ =~= "JR C, "@);
}


/// The accumulator after the 8-bit operation `op` (ADD, ADC, SUB, SBC, AND,
/// XOR, OR, CP) of `a` and `v`, with the carry `c` for ADC and SBC, modulo
/// 256; CP leaves the accumulator as it is.
pub open spec fn alu_result(op: u8, a: u8, v: u8, c: int) -> int {
    if op == 0 {
        (a + v) % 256
    } else if op == 1 {
        (a + v + c) % 256
    } else if op == 2 {
        (a - v + 256) % 256
    } else if op == 3 {
        (a - v - c + 512) % 256
    } else if op == 4 {
        (a & v) as int
    } else if op == 5 {
        (a ^ v) as int
    } else if op == 6 {
        (a | v) as int
    } else {
        a as int
    }
}


/// What the 8-bit operation `op` leaves in the accumulator, and that it keeps
/// memory and the program counter.
proof fn lemma_alu_accumulator(m: Machine, op: u8, v: u8)
    requires
        op < 8,
    ensures
        crate::semantics::alu(m, op, v).regs.a as int == alu_result(op, m.regs.a, v, carry_value(m)),
        crate::semantics::alu(m, op, v).memory == m.memory,
        crate::semantics::alu(m, op, v).regs.pc == m.regs.pc,
{
}

/// One step on an 8-bit operation with a register operand.
#[verifier::spinoff_prover]
proof fn lemma_step_alu_register<B: Bus>(m: Machine, op: u8, src: u8)
    requires
        op < 8,
        src < 8,
        m.read(m.regs.pc) == 0x80 + 8 * op + src,
    ensures
        step_spec::<B>(m) == crate::semantics::alu(m.advance(), op, m.reg8(src)),
{
    let opcode = m.read(m.regs.pc);
    assert(opcode / 64 == 2 && (opcode / 8) % 8 == op && opcode % 8 == src);
    assert(m.advance().reg8(src) == m.reg8(src));
}

/// One step on an 8-bit operation with an immediate operand.
#[verifier::spinoff_prover]
proof fn lemma_step_alu_immediate<B: Bus>(m: Machine, op: u8)
    requires
        op < 8,
        m.read(m.regs.pc) == 0xC6 + 8 * op,
    ensures
        step_spec::<B>(m) == crate::semantics::alu(m.advance().fetch().1, op, m.read(m.regs.pc.wrapping_add(1))),
{
    let opcode = m.read(m.regs.pc);
    assert(opcode / 64 == 3 && (opcode / 8) % 8 == op && opcode % 8 == 6);
}

/// An 8-bit arithmetic or logical instruction on a register operand (the
/// byte at HL for field 6) combines the accumulator with that operand and
/// keeps memory; PC moves past the opcode.
pub proof fn lemma_alu_register<B: Bus>(cpu: &Cpu<B>, op: u8, src: u8)
    requires
        op < 8,
        src < 8,
        cpu.machine().read(cpu.registers.pc) == 0x80 + 8 * op + src,
    ensures
        ({
            let m = cpu.machine();
            let after = step_spec::<B>(m);
            &&& after.regs.a as int == alu_result(op, m.regs.a, m.reg8(src), carry_value(m))
            &&& after.memory == m.memory
            &&& after.regs.pc == m.regs.pc.wrapping_add(1)
        }),
{
    let m = cpu.machine();
    lemma_step_alu_register::<B>(m, op, src);
    lemma_alu_accumulator(m.advance(), op, m.reg8(src));
}

/// An 8-bit arithmetic or logical instruction with an immediate operand
/// combines the accumulator with the byte after the opcode.
pub proof fn lemma_alu_immediate<B: Bus>(cpu: &Cpu<B>, op: u8)
    requires
        op < 8,
        cpu.machine().read(cpu.registers.pc) == 0xC6 + 8 * op,
    ensures
        ({
            let m = cpu.machine();
            let after = step_spec::<B>(m);
            &&& after.regs.a as int == alu_result(op, m.regs.a, m.read(m.regs.pc.wrapping_add(1)), carry_value(m))
            &&& after.memory == m.memory
            &&& after.regs.pc == m.regs.pc.wrapping_add(1).wrapping_add(1)
        }),
{
    let m = cpu.machine();
    lemma_step_alu_immediate::<B>(m, op);
    lemma_alu_accumulator(m.advance().fetch().1, op, m.read(m.regs.pc.wrapping_add(1)));
}

/// One step on an 8-bit operation with an indexed operand.
#[verifier::rlimit(50)]
#[verifier::spinoff_prover]
proof fn lemma_step_alu_indexed<B: Bus>(m: Machine, op: u8)
    requires
        op < 8,
        m.read(m.regs.pc) == 0xDD || m.read(m.regs.pc) == 0xFD,
        m.read(m.regs.pc.wrapping_add(1)) == 0x86 + 8 * op,
    ensures
        ({
            let x = if m.read(m.regs.pc) == 0xFD { m.regs.iy } else { m.regs.ix };
            let d = m.read(m.regs.pc.wrapping_add(1).wrapping_add(1));
            let m3 = m.advance().fetch().1.fetch().1;
            step_spec::<B>(m) == crate::semantics::alu(m3, op, m.read(offset_address(x, d)))
        }),
{
    let opcode = m.read(m.regs.pc.wrapping_add(1));
    assert(opcode / 64 == 2 && (opcode / 8) % 8 == op && opcode % 8 == 6);
    let d = m.read(m.regs.pc.wrapping_add(1).wrapping_add(1));
    let x = if m.read(m.regs.pc) == 0xFD { m.regs.iy } else { m.regs.ix };
    assert(crate::machine::displaced(x, d) == offset_address(x, d));
}

/// An 8-bit arithmetic or logical instruction on (IX+d) or (IY+d) combines
/// the accumulator with the byte at the index register moved by the signed
/// displacement d.
pub proof fn lemma_alu_indexed<B: Bus>(cpu: &Cpu<B>, op: u8)
    requires
        op < 8,
        cpu.machine().read(cpu.registers.pc) == 0xDD || cpu.machine().read(cpu.registers.pc) == 0xFD,
        cpu.machine().read(cpu.registers.pc.wrapping_add(1)) == 0x86 + 8 * op,
    ensures
        ({
            let m = cpu.machine();
            let x = if m.read(m.regs.pc) == 0xFD { m.regs.iy } else { m.regs.ix };
            let d = m.read(m.regs.pc.wrapping_add(1).wrapping_add(1));
            let after = step_spec::<B>(m);
            &&& after.regs.a as int == alu_result(op, m.regs.a, m.read(offset_address(x, d)), carry_value(m))
            &&& after.memory == m.memory
        }),
{
    let m = cpu.machine();
    let x = if m.read(m.regs.pc) == 0xFD { m.regs.iy } else { m.regs.ix };
    let d = m.read(m.regs.pc.wrapping_add(1).wrapping_add(1));
    lemma_step_alu_indexed::<B>(m, op);
    lemma_alu_accumulator(m.advance().fetch().1.fetch().1, op, m.read(offset_address(x, d)));
}

/// LD r,r' copies the operand that the second field names into the one that
/// the first names (the byte at HL for field 6); LD r,n stores the byte after
/// the opcode; INC r and DEC r count the operand up or down modulo 256.
#[verifier::rlimit(50)]
#[verifier::spinoff_prover]
pub proof fn lemma_register_loads_and_counts<B: Bus>(cpu: &Cpu<B>, dst: u8, src: u8)
    requires
        dst < 8,
        src < 8,
    ensures
        ({
            let m = cpu.machine();
            let opcode = m.read(m.regs.pc);
            let after = step_spec::<B>(m);
            &&& opcode == 0x40 + 8 * dst + src && !(dst == 6 && src == 6) ==> after.reg8(dst) == m.reg8(src)
            &&& opcode == 0x06 + 8 * dst ==> after.reg8(dst) == m.read(m.regs.pc.wrapping_add(1))
            &&& opcode == 0x04 + 8 * dst ==> after.reg8(dst) as int == (m.reg8(dst) + 1) % 256
            &&& opcode == 0x05 + 8 * dst ==> after.reg8(dst) as int == (m.reg8(dst) + 255) % 256
        }),
{
    let m = cpu.machine();
    cpu.bus.lemma_memory_size();
    let opcode = m.read(m.regs.pc);
    let m1 = m.advance();
    assert(m1.reg8(src) == m.reg8(src));
    assert(m1.reg8(dst) == m.reg8(dst));
    if opcode == 0x40 + 8 * dst + src && !(dst == 6 && src == 6) {
        assert(opcode / 64 == 1 && (opcode / 8) % 8 == dst && opcode % 8 == src);
        assert(m1.set_reg8(dst, m1.reg8(src)).reg8(dst) == m.reg8(src));
    }
    if opcode == 0x06 + 8 * dst {
        assert(opcode / 64 == 0 && (opcode / 8) % 8 == dst && opcode % 8 == 6);
    }
    if opcode == 0x04 + 8 * dst {
        assert(opcode / 64 == 0 && (opcode / 8) % 8 == dst && opcode % 8 == 4);
    }
    if opcode == 0x05 + 8 * dst {
        assert(opcode / 64 == 0 && (opcode / 8) % 8 == dst && opcode % 8 == 5);
    }
}

/// The CB-prefixed bit instructions on an operand (the byte at HL for field
/// 6): BIT b sets Z exactly when bit b is clear and changes no operand; RES b
/// clears bit b and SET b sets it, every other bit staying.
#[verifier::rlimit(50)]
#[verifier::spinoff_prover]
pub proof fn lemma_bit_instructions<B: Bus>(cpu: &Cpu<B>, b: u8, r: u8)
    requires
        b < 8,
        r < 8,
        cpu.machine().read(cpu.registers.pc) == 0xCB,
    ensures
        ({
            let m = cpu.machine();
            let opcode = m.read(m.regs.pc.wrapping_add(1));
            let v = m.reg8(r);
            let after = step_spec::<B>(m);
            &&& opcode == 0x40 + 8 * b + r ==> after.flag(ZERO) == !bit_of(v, b) && after.memory == m.memory
            &&& opcode == 0x80 + 8 * b + r ==> forall|j: u8| j < 8 ==> #[trigger] bit_of(after.reg8(r), j) == (j != b && bit_of(v, j))
            &&& opcode == 0xC0 + 8 * b + r ==> forall|j: u8| j < 8 ==> #[trigger] bit_of(after.reg8(r), j) == (j == b || bit_of(v, j))
        }),
{
    let m = cpu.machine();
    cpu.bus.lemma_memory_size();
    let opcode = m.read(m.regs.pc.wrapping_add(1));
    let v = m.reg8(r);
    let m2 = m.advance().fetch().1;
    assert(m2.reg8(r) == v);
    if opcode == 0x40 + 8 * b + r {
        assert(opcode / 64 == 1 && (opcode / 8) % 8 == b && opcode % 8 == r);
        let set = bit_of(v, b);
        let f = m2.regs.f;
        let f1 = with_bit(f, SIGN, set);
        let f2 = with_bit(f1, ZERO, !set);
        let f3 = with_bit(f2, HALF_CARRY, true);
        let f4 = with_bit(f3, PARITY_OVERFLOW, !set);
        lemma_with_bit(f1, ZERO, !set, ZERO);
        lemma_with_bit(f2, HALF_CARRY, true, ZERO);
        lemma_with_bit(f3, PARITY_OVERFLOW, !set, ZERO);
        lemma_with_bit(f4, ADD_SUBTRACT, false, ZERO);
    }
    if opcode == 0x80 + 8 * b + r {
        assert(opcode / 64 == 2 && (opcode / 8) % 8 == b && opcode % 8 == r);
        assert forall|j: u8| j < 8 implies #[trigger] bit_of(step_spec::<B>(m).reg8(r), j) == (j != b && bit_of(v, j)) by {
            lemma_with_bit(v, b, false, j);
        }
    }
    if opcode == 0xC0 + 8 * b + r {
        assert(opcode / 64 == 3 && (opcode / 8) % 8 == b && opcode % 8 == r);
        assert forall|j: u8| j < 8 implies #[trigger] bit_of(step_spec::<B>(m).reg8(r), j) == (j == b || bit_of(v, j)) by {
            lemma_with_bit(v, b, true, j);
        }
    }
}

/// The shifts, rotations and bit changes of (IX+d) and (IY+d) (prefix, CB,
/// d, opcode) store their result at the index register moved by the signed
/// displacement d, and also in the register that the low field names unless
/// it is 6.
#[verifier::rlimit(80)]
#[verifier::spinoff_prover]
pub proof fn lemma_indexed_shift_stores_its_result<B: Bus>(cpu: &Cpu<B>, op: u8, r: u8)
    requires
        op < 8,
        op != 6,
        r < 8,
        cpu.machine().read(cpu.registers.pc) == 0xDD || cpu.machine().read(cpu.registers.pc) == 0xFD,
        cpu.machine().read(cpu.registers.pc.wrapping_add(1)) == 0xCB,
        cpu.machine().read(cpu.registers.pc.wrapping_add(1).wrapping_add(1).wrapping_add(1)) == 8 * op + r,
    ensures
        ({
            let m = cpu.machine();
            let x = if m.read(m.regs.pc) == 0xFD { m.regs.iy } else { m.regs.ix };
            let d = m.read(m.regs.pc.wrapping_add(1).wrapping_add(1));
            let address = offset_address(x, d);
            let (value, carry) = shifted(op, m.read(address), m.flag(CARRY));
            let after = step_spec::<B>(m);
            &&& after.read(address) == value
            &&& r != 6 ==> after.reg8(r) == value
            &&& after.flag(CARRY) == carry
        }),
{
    let m = cpu.machine();
    cpu.bus.lemma_memory_size();
    let x = if m.read(m.regs.pc) == 0xFD { m.regs.iy } else { m.regs.ix };
    let d = m.read(m.regs.pc.wrapping_add(1).wrapping_add(1));
    let address = offset_address(x, d);
    assert(crate::machine::displaced(x, d) == address);
    let v = m.read(address);
    lemma_shift_arithmetic(v);
    crate::machine::lemma_byte_facts();
    let closing = 8 * op + r;
    assert(closing / 64 == 0 && (closing / 8) % 8 == op && closing % 8 == r);
    let (result, carry) = crate::machine::shift_result(op, v, m.flag(CARRY));
    let f = m.regs.f;
    lemma_with_bit(with_bit(with_bit(with_bit(with_bit(with_bit(f, SIGN, bit_of(result, 7)), ZERO, result == 0), HALF_CARRY, false), PARITY_OVERFLOW, crate::machine::parity_even(result)), ADD_SUBTRACT, false), CARRY, carry, CARRY);
    assert(result as int == shifted(op, v, m.flag(CARRY)).0);
}


/// The operand names that the disassembler prints for a three-bit register
/// field, and the fields it lists, are those of the operand that the
/// processor reads for that field: b, c, d, e, h, l, the byte at HL, a.
pub proof fn lemma_register_names_follow_operands(m: Machine, i: u8)
    requires
        i < 8,
    ensures
        i == 0 ==> register_name(i) == "b"@ && m.reg8(i) == m.regs.b && register_fields(i) == seq![Fields::B],
        i == 1 ==> register_name(i) == "c"@ && m.reg8(i) == m.regs.c && register_fields(i) == seq![Fields::C],
        i == 2 ==> register_name(i) == "d"@ && m.reg8(i) == m.regs.d && register_fields(i) == seq![Fields::D],
        i == 3 ==> register_name(i) == "e"@ && m.reg8(i) == m.regs.e && register_fields(i) == seq![Fields::E],
        i == 4 ==> register_name(i) == "h"@ && m.reg8(i) == m.regs.h && register_fields(i) == seq![Fields::H],
        i == 5 ==> register_name(i) == "l"@ && m.reg8(i) == m.regs.l && register_fields(i) == seq![Fields::L],
        i == 6 ==> register_name(i) == "(HL)"@ && m.reg8(i) == m.read(pair_value(m.regs.h, m.regs.l)) && register_fields(i) == seq![Fields::H, Fields::L],
        i == 7 ==> register_name(i) == "a"@ && m.reg8(i) == m.regs.a && register_fields(i) == seq![Fields::A],
{
}

/// The disassembly of LD r,r' names the destination field first and the
/// source field second, as the processor copies them; that of an 8-bit
/// operation with a register operand ends with the name of that operand.
pub proof fn lemma_register_operand_disassembly(dst: u8, src: u8, op: u8, low: u8, high: u8)
    requires
        dst < 8,
        src < 8,
        op < 8,
    ensures
        !(dst == 6 && src == 6) ==> disassembly((0x40 + 8 * dst + src) as u8, low, high).0
            == "LD "@ + register_name(dst) + ", "@ + register_name(src),
        ({
            let text = disassembly((0x80 + 8 * op + src) as u8, low, high).0;
            let name = register_name(src);
            text.len() >= name.len() && text.subrange(text.len() - name.len(), text.len() as int) == name
        }),
{
    let load = (0x40 + 8 * dst + src) as u8;
    assert(load / 64 == 1 && (load / 8) % 8 == dst && load % 8 == src);
    let alu_op = (0x80 + 8 * op + src) as u8;
    assert(alu_op / 64 == 2 && (alu_op / 8) % 8 == op && alu_op % 8 == src);
    let text = disassembly(alu_op, low, high).0;
    let name = register_name(src);
    assert(text.subrange(text.len() - name.len(), text.len() as int) =~= name);
}


/// LD rp,nn loads the word after the opcode (low byte first) into the pair
/// that the two-bit field names, and INC rp and DEC rp count that pair up or
/// down modulo 2^16.
#[verifier::spinoff_prover]
#[verifier::rlimit(50)]
pub proof fn lemma_pair_loads_and_counts<B: Bus>(cpu: &Cpu<B>, p: u8)
    requires
        p < 4,
    ensures
        ({
            let m = cpu.machine();
            let pc = m.regs.pc;
            let opcode = m.read(pc);
            let after = step_spec::<B>(m);
            &&& opcode == 0x01 + 16 * p ==> named_pair(after, p)
                == pair_value(m.read(pc.wrapping_add(1).wrapping_add(1)), m.read(pc.wrapping_add(1)))
            &&& opcode == 0x03 + 16 * p ==> named_pair(after, p) as int == (named_pair(m, p) + 1) % 65536
            &&& opcode == 0x0B + 16 * p ==> named_pair(after, p) as int == (named_pair(m, p) + 65535) % 65536
        }),
{
    let m = cpu.machine();
    let opcode = m.read(m.regs.pc);
    if opcode == 0x01 + 16 * p {
        assert(opcode / 64 == 0 && (opcode / 8) % 8 == 2 * p && opcode % 8 == 1);
    }
    if opcode == 0x03 + 16 * p {
        assert(opcode / 64 == 0 && (opcode / 8) % 8 == 2 * p && opcode % 8 == 3);
    }
    if opcode == 0x0B + 16 * p {
        assert(opcode / 64 == 0 && (opcode / 8) % 8 == 2 * p + 1 && opcode % 8 == 3);
    }
}

/// DJNZ e counts B down and jumps by the signed displacement e from the
/// address after the instruction exactly when B has not reached zero.
pub proof fn lemma_djnz<B: Bus>(cpu: &Cpu<B>)
    requires
        cpu.machine().read(cpu.registers.pc) == 0x10,
    ensures
        ({
            let m = cpu.machine();
            let next = m.regs.pc.wrapping_add(1).wrapping_add(1);
            let e = m.read(m.regs.pc.wrapping_add(1));
            let after = step_spec::<B>(m);
            &&& after.regs.b as int == (m.regs.b + 255) % 256
            &&& after.regs.pc == (if after.regs.b != 0 { offset_address(next, e) } else { next })
        }),
{
    let m = cpu.machine();
    let next = m.regs.pc.wrapping_add(1).wrapping_add(1);
    let e = m.read(m.regs.pc.wrapping_add(1));
    assert(crate::machine::displaced(next, e) == offset_address(next, e));
}

/// LD (IX+d),n and LD (IY+d),n store the last byte of the instruction at the
/// index register moved by the signed displacement d; INC (X+d) and
/// DEC (X+d) count the byte there up or down modulo 256.
#[verifier::spinoff_prover]
#[verifier::rlimit(80)]
pub proof fn lemma_indexed_memory_operations<B: Bus>(cpu: &Cpu<B>)
    requires
        cpu.machine().read(cpu.registers.pc) == 0xDD || cpu.machine().read(cpu.registers.pc) == 0xFD,
    ensures
        ({
            let m = cpu.machine();
            let pc = m.regs.pc;
            let x = if m.read(pc) == 0xFD { m.regs.iy } else { m.regs.ix };
            let opcode = m.read(pc.wrapping_add(1));
            let d = m.read(pc.wrapping_add(1).wrapping_add(1));
            let address = offset_address(x, d);
            let after = step_spec::<B>(m);
            &&& opcode == 0x36 ==> after.memory == m.memory.update(address as int, m.read(pc.wrapping_add(1).wrapping_add(1).wrapping_add(1)))
            &&& opcode == 0x34 ==> after.memory == m.memory.update(address as int, ((m.read(address) + 1) % 256) as u8)
            &&& opcode == 0x35 ==> after.memory == m.memory.update(address as int, ((m.read(address) + 255) % 256) as u8)
        }),
{
    let m = cpu.machine();
    let x = if m.read(m.regs.pc) == 0xFD { m.regs.iy } else { m.regs.ix };
    let d = m.read(m.regs.pc.wrapping_add(1).wrapping_add(1));
    assert(crate::machine::displaced(x, d) == offset_address(x, d));
}

/// ADD IX,rp and ADD IY,rp add to the index register the pair that the
/// two-bit field names, the index register itself standing in for HL,
/// modulo 2^16.
#[verifier::spinoff_prover]
#[verifier::rlimit(50)]
pub proof fn lemma_indexed_add<B: Bus>(cpu: &Cpu<B>, p: u8)
    requires
        p < 4,
        cpu.machine().read(cpu.registers.pc) == 0xDD || cpu.machine().read(cpu.registers.pc) == 0xFD,
        cpu.machine().read(cpu.registers.pc.wrapping_add(1)) == 0x09 + 16 * p,
    ensures
        ({
            let m = cpu.machine();
            let use_iy = m.read(m.regs.pc) == 0xFD;
            let x = if use_iy { m.regs.iy } else { m.regs.ix };
            let operand = if p == 2 { x } else { named_pair(m, p) };
            let after = step_spec::<B>(m);
            (if use_iy { after.regs.iy } else { after.regs.ix }) as int == (x + operand) % 65536
        }),
{
    let m = cpu.machine();
    let opcode = m.read(m.regs.pc.wrapping_add(1));
    assert(opcode / 64 == 0 && (opcode / 8) % 8 == 2 * p + 1 && opcode % 8 == 1);
}

} // verus!
