#![allow(unused_imports)]
#![allow(dead_code)]

use z80::bus::{Bus, TestBus};
use z80::cpu::Cpu;
use z80::flags::{self, bit_is_set, set_bit};
use z80::registers::{self, Registers};

const REG_A: u8 = 7;
const REG_B: u8 = 0;
const REG_C: u8 = 1;
const REG_D: u8 = 2;
const REG_E: u8 = 3;
const REG_H: u8 = 4;
const REG_L: u8 = 5;
const REG_HL: u8 = 6;

const REG_A_SRC: u8 = REG_A;
const REG_B_SRC: u8 = REG_B;
const REG_C_SRC: u8 = REG_C;
const REG_D_SRC: u8 = REG_D;
const REG_E_SRC: u8 = REG_E;
const REG_H_SRC: u8 = REG_H;
const REG_L_SRC: u8 = REG_L;
const REG_HL_SRC: u8 = REG_HL;

const REG_A_DEST: u8 = REG_A << 3;
const REG_B_DEST: u8 = REG_B << 3;
const REG_C_DEST: u8 = REG_C << 3;
const REG_D_DEST: u8 = REG_D << 3;
const REG_E_DEST: u8 = REG_E << 3;
const REG_H_DEST: u8 = REG_H << 3;
const REG_L_DEST: u8 = REG_L << 3;
const REG_HL_DEST: u8 = REG_HL << 3;

#[test]
fn nop_advances_pc() {
    let mut cpu = Cpu::new(Registers::new(), TestBus::new());

    assert_eq!(cpu.registers.pc, 0);
    assert_eq!(cpu.registers.r, 0);

    cpu.step();
    assert_eq!(cpu.registers.pc, 1);
    assert_eq!(cpu.registers.r, 1);
}

#[test]
fn halt_stops() {
    let mut cpu = Cpu::new(Registers::new(), TestBus::new());

    cpu.bus.write8(0, 0x76);
    assert_eq!(cpu.registers.pc, 0);
    assert_eq!(cpu.registers.r, 0);
    assert!(!cpu.registers.halted);

    cpu.step();
    assert_eq!(cpu.registers.pc, 0);
    assert_eq!(cpu.registers.r, 1);
    assert!(cpu.registers.halted);
}

#[test]
fn di_disables_iff() {
    let mut cpu = Cpu::new(Registers::new(), TestBus::new());

    cpu.registers.iff1 = true;
    cpu.registers.iff2 = true;
    cpu.bus.write8(0, 0xF3);
    cpu.bus.write8(1, 0xF3);
    assert_eq!(cpu.registers.pc, 0);
    assert_eq!(cpu.registers.r, 0);

    cpu.step();
    assert_eq!(cpu.registers.pc, 1);
    assert_eq!(cpu.registers.r, 1);
    assert!(!cpu.registers.iff1);
    assert!(!cpu.registers.iff2);

    cpu.step();
    assert_eq!(cpu.registers.pc, 2);
    assert_eq!(cpu.registers.r, 2);
    assert!(!cpu.registers.iff1);
    assert!(!cpu.registers.iff2);
}

#[test]
fn ei_enables_iff() {
    let mut cpu = Cpu::new(Registers::new(), TestBus::new());

    cpu.registers.iff1 = false;
    cpu.registers.iff2 = false;
    cpu.bus.write8(0, 0xFB);
    cpu.bus.write8(1, 0xFB);
    assert_eq!(cpu.registers.pc, 0);
    assert_eq!(cpu.registers.r, 0);

    cpu.step();
    assert_eq!(cpu.registers.pc, 1);
    assert_eq!(cpu.registers.r, 1);
    assert!(cpu.registers.iff1);
    assert!(cpu.registers.iff2);

    cpu.step();
    assert_eq!(cpu.registers.pc, 2);
    assert_eq!(cpu.registers.r, 2);
    assert!(cpu.registers.iff1);
    assert!(cpu.registers.iff2);
}

#[test]
fn should_load_e_alt_into_c() {
    let mut cpu = Cpu::new(Registers::new(), TestBus::new());
    cpu.registers.e = 42;
    cpu.registers.c = 13;
    cpu.bus.write8(0, 1 << 6 | REG_C_DEST | REG_E_SRC);
    cpu.step();
    assert_eq!(cpu.registers.pc, 1);
    assert_eq!(cpu.registers.r, 1);
    assert_eq!(cpu.registers.e, 42);
    assert_eq!(cpu.registers.c, 42);
}

#[test]
fn should_load_hl_alt_into_c() {
    let mut cpu = Cpu::new(Registers::new(), TestBus::new());
    cpu.registers.h = 0xBE;
    cpu.registers.l = 0xEF;
    cpu.bus.write8(0xBEEF, 42);
    cpu.registers.c = 13;
    cpu.bus.write8(0, 1 << 6 | REG_C_DEST | REG_HL_SRC);
    cpu.step();
    assert_eq!(cpu.registers.pc, 1);
    assert_eq!(cpu.registers.r, 1);
    assert_eq!(cpu.registers.c, 42);
}

#[test]
fn should_ld_r_n() {
    let mut cpu = Cpu::new(Registers::new(), TestBus::new());
    cpu.bus.write8(0, REG_C_DEST | 6);
    cpu.bus.write8(1, 42);
    cpu.step();
    assert_eq!(cpu.registers.pc, 2);
    assert_eq!(cpu.registers.r, 1);
    assert_eq!(cpu.registers.c, 42);
}

#[test]
fn should_ld_r_n_to_hl() {
    let mut cpu = Cpu::new(Registers::new(), TestBus::new());
    cpu.registers.set_hl(0xBEEF);
    cpu.bus.write8(0, REG_HL_DEST | 6);
    cpu.bus.write8(1, 42);
    cpu.step();
    assert_eq!(cpu.registers.pc, 2);
    assert_eq!(cpu.registers.r, 1);
    assert_eq!(cpu.bus.read8(0xBEEF), 42);
}

#[test]
fn should_load_bc_into_a() {
    let mut cpu = Cpu::new(Registers::new(), TestBus::new());
    cpu.registers.set_bc(0xBEEF);
    cpu.bus.write8(0xBEEF, 42);
    cpu.bus.write8(0, 1 << 3 | 2);
    cpu.step();
    assert_eq!(cpu.registers.pc, 1);
    assert_eq!(cpu.registers.r, 1);
    assert_eq!(cpu.registers.a, 42);
}

#[test]
fn should_load_a_into_bc() {
    let mut cpu = Cpu::new(Registers::new(), TestBus::new());
    cpu.registers.set_bc(0xBEEF);
    cpu.registers.a = 42;
    cpu.bus.write8(0, 2);
    cpu.step();
    assert_eq!(cpu.registers.pc, 1);
    assert_eq!(cpu.registers.r, 1);
    assert_eq!(cpu.bus.read8(0xBEEF), 42);
}

#[test]
fn should_load_de_into_a() {
    let mut cpu = Cpu::new(Registers::new(), TestBus::new());
    cpu.registers.set_de(0xBEEF);
    cpu.bus.write8(0xBEEF, 42);
    cpu.bus.write8(0, 3 << 3 | 2);
    cpu.step();
    assert_eq!(cpu.registers.pc, 1);
    assert_eq!(cpu.registers.r, 1);
    assert_eq!(cpu.registers.a, 42);
}

#[test]
fn should_load_a_into_de() {
    let mut cpu = Cpu::new(Registers::new(), TestBus::new());
    cpu.registers.set_de(0xBEEF);
    cpu.registers.a = 42;
    cpu.bus.write8(0, 2 << 3 | 2);
    cpu.step();
    assert_eq!(cpu.registers.pc, 1);
    assert_eq!(cpu.registers.r, 1);
    assert_eq!(cpu.bus.read8(0xBEEF), 42);
}

#[test]
fn should_load_hl_into_nn() {
    let mut cpu = Cpu::new(Registers::new(), TestBus::new());
    cpu.registers.set_hl(0xBEEF);
    cpu.bus.write8(0, 4 << 3 | 2);
    cpu.bus.write8(1, 0xA);
    cpu.bus.write8(2, 0xB);
    cpu.step();
    assert_eq!(cpu.registers.pc, 3);
    assert_eq!(cpu.registers.r, 1);
    assert_eq!(cpu.registers.l, cpu.bus.read8(0xB0A));
    assert_eq!(cpu.registers.h, cpu.bus.read8(0xB0B));
}

#[test]
fn should_load_address_of_nn_into_hl() {
    let mut cpu = Cpu::new(Registers::new(), TestBus::new());
    cpu.bus.write8(0, 5 << 3 | 2);
    cpu.bus.write8(1, 0xA);
    cpu.bus.write8(2, 0xB);
    cpu.bus.write8(0xB0A, 13);
    cpu.bus.write8(0xB0B, 42);
    cpu.step();
    assert_eq!(cpu.registers.pc, 3);
    assert_eq!(cpu.registers.r, 1);
    assert_eq!(cpu.registers.h, 42);
    assert_eq!(cpu.registers.l, 13);
}

#[test]
fn should_load_a_into_nn() {
    let mut cpu = Cpu::new(Registers::new(), TestBus::new());
    cpu.registers.set_hl(0xBEEF);
    cpu.registers.a = 42;
    cpu.bus.write8(0, 6 << 3 | 2);
    cpu.bus.write8(1, 0xA);
    cpu.bus.write8(2, 0xB);
    cpu.step();
    assert_eq!(cpu.registers.pc, 3);
    assert_eq!(cpu.registers.r, 1);
    assert_eq!(cpu.registers.a, cpu.bus.read8(0xB0A));
}

#[test]
fn should_load_nn_into_a() {
    let mut cpu = Cpu::new(Registers::new(), TestBus::new());
    cpu.registers.set_hl(0xBEEF);
    cpu.bus.write8(0, 7 << 3 | 2);
    cpu.bus.write8(1, 0xA);
    cpu.bus.write8(2, 0xB);
    cpu.bus.write8(0xB0A, 42);
    cpu.step();
    assert_eq!(cpu.registers.pc, 3);
    assert_eq!(cpu.registers.r, 1);
    assert_eq!(cpu.registers.a, 42);
}

#[test]
fn should_load_nn_into_bc() {
    let mut cpu = Cpu::new(Registers::new(), TestBus::new());
    cpu.bus.write8(0, 1);
    cpu.bus.write8(1, 0xA);
    cpu.bus.write8(2, 0xB);
    cpu.step();
    assert_eq!(cpu.registers.pc, 3);
    assert_eq!(cpu.registers.r, 1);
    assert_eq!(cpu.registers.bc(), 0xB0A);
}

#[test]
fn should_load_nn_into_de() {
    let mut cpu = Cpu::new(Registers::new(), TestBus::new());
    cpu.bus.write8(0, 2 << 3 | 1);
    cpu.bus.write8(1, 0xA);
    cpu.bus.write8(2, 0xB);
    cpu.step();
    assert_eq!(cpu.registers.pc, 3);
    assert_eq!(cpu.registers.r, 1);
    assert_eq!(cpu.registers.de(), 0xB0A);
}

#[test]
fn should_load_of_nn_into_hl() {
    let mut cpu = Cpu::new(Registers::new(), TestBus::new());
    cpu.bus.write8(0, 4 << 3 | 1);
    cpu.bus.write8(1, 0xA);
    cpu.bus.write8(2, 0xB);
    cpu.step();
    assert_eq!(cpu.registers.pc, 3);
    assert_eq!(cpu.registers.r, 1);
    assert_eq!(cpu.registers.hl(), 0xB0A);
}

#[test]
fn should_load_of_nn_into_sp() {
    let mut cpu = Cpu::new(Registers::new(), TestBus::new());
    cpu.bus.write8(0, 6 << 3 | 1);
    cpu.bus.write8(1, 0xA);
    cpu.bus.write8(2, 0xB);
    cpu.step();
    assert_eq!(cpu.registers.pc, 3);
    assert_eq!(cpu.registers.r, 1);
    assert_eq!(cpu.registers.sp, 0xB0A);
}

#[test]
fn should_push_bc() {
    let mut cpu = Cpu::new(Registers::new(), TestBus::new());
    cpu.registers.set_bc(0xBEEF);
    cpu.registers.sp = 100;
    cpu.bus.write8(0, 3 << 6 | 5);
    cpu.step();
    assert_eq!(cpu.registers.pc, 1);
    assert_eq!(cpu.registers.r, 1);
    assert_eq!(cpu.registers.sp, 98);
    assert_eq!(cpu.bus.read8(99), 0xBE);
    assert_eq!(cpu.bus.read8(98), 0xEF);
}

#[test]
fn should_push_de() {
    let mut cpu = Cpu::new(Registers::new(), TestBus::new());
    cpu.registers.set_de(0xBEEF);
    cpu.registers.sp = 100;
    cpu.bus.write8(0, 3 << 6 | 2 << 3 | 5);
    cpu.step();
    assert_eq!(cpu.registers.pc, 1);
    assert_eq!(cpu.registers.r, 1);
    assert_eq!(cpu.registers.sp, 98);
    assert_eq!(cpu.bus.read8(99), 0xBE);
    assert_eq!(cpu.bus.read8(98), 0xEF);
}

#[test]
fn should_push_hl() {
    let mut cpu = Cpu::new(Registers::new(), TestBus::new());
    cpu.registers.set_hl(0xBEEF);
    cpu.registers.sp = 100;
    cpu.bus.write8(0, 3 << 6 | 4 << 3 | 5);
    cpu.step();
    assert_eq!(cpu.registers.pc, 1);
    assert_eq!(cpu.registers.r, 1);
    assert_eq!(cpu.registers.sp, 98);
    assert_eq!(cpu.bus.read8(99), 0xBE);
    assert_eq!(cpu.bus.read8(98), 0xEF);
}

#[test]
fn should_push_af() {
    let mut cpu = Cpu::new(Registers::new(), TestBus::new());
    cpu.registers.set_af(0xBEEF);
    cpu.registers.sp = 100;
    cpu.bus.write8(0, 3 << 6 | 6 << 3 | 5);
    cpu.step();
    assert_eq!(cpu.registers.pc, 1);
    assert_eq!(cpu.registers.r, 1);
    assert_eq!(cpu.registers.sp, 98);
    assert_eq!(cpu.bus.read8(99), 0xBE);
    assert_eq!(cpu.bus.read8(98), 0xEF);
}

#[test]
fn should_pop_bc() {
    let mut cpu = Cpu::new(Registers::new(), TestBus::new());
    cpu.bus.write8(99, 0xBE);
    cpu.bus.write8(98, 0xEF);
    cpu.registers.sp = 98;

    cpu.bus.write8(0, 3 << 6 | 1);
    cpu.step();
    assert_eq!(cpu.registers.pc, 1);
    assert_eq!(cpu.registers.r, 1);
    assert_eq!(cpu.registers.sp, 100);
    assert_eq!(cpu.registers.bc(), 0xBEEF);
}

#[test]
fn should_pop_de() {
    let mut cpu = Cpu::new(Registers::new(), TestBus::new());
    cpu.bus.write8(99, 0xBE);
    cpu.bus.write8(98, 0xEF);
    cpu.registers.sp = 98;

    cpu.bus.write8(0, 3 << 6 | 2 << 3 | 1);
    cpu.step();
    assert_eq!(cpu.registers.pc, 1);
    assert_eq!(cpu.registers.r, 1);
    assert_eq!(cpu.registers.sp, 100);
    assert_eq!(cpu.registers.de(), 0xBEEF);
}

#[test]
fn should_pop_hl() {
    let mut cpu = Cpu::new(Registers::new(), TestBus::new());
    cpu.bus.write8(99, 0xBE);
    cpu.bus.write8(98, 0xEF);
    cpu.registers.sp = 98;

    cpu.bus.write8(0, 3 << 6 | 4 << 3 | 1);
    cpu.step();
    assert_eq!(cpu.registers.pc, 1);
    assert_eq!(cpu.registers.r, 1);
    assert_eq!(cpu.registers.sp, 100);
    assert_eq!(cpu.registers.hl(), 0xBEEF);
}

#[test]
fn should_pop_af() {
    let mut cpu = Cpu::new(Registers::new(), TestBus::new());
    cpu.bus.write8(99, 0xBE);
    cpu.bus.write8(98, 0xEF);
    cpu.registers.sp = 98;

    cpu.bus.write8(0, 3 << 6 | 6 << 3 | 1);
    cpu.step();
    assert_eq!(cpu.registers.pc, 1);
    assert_eq!(cpu.registers.r, 1);
    assert_eq!(cpu.registers.sp, 100);
    assert_eq!(cpu.registers.af(), 0xBEEF);
}

#[test]
fn should_inc_a() {
    let mut cpu = Cpu::new(Registers::new(), TestBus::new());
    cpu.bus.write8(0, 7 << 3 | 4);
    cpu.step();
    assert_eq!(cpu.registers.pc, 1);
    assert_eq!(cpu.registers.r, 1);
    assert_eq!(cpu.registers.a, 1);
}

#[test]
fn should_inc_b() {
    let mut cpu = Cpu::new(Registers::new(), TestBus::new());
    cpu.bus.write8(0, 4);
    cpu.step();
    assert_eq!(cpu.registers.pc, 1);
    assert_eq!(cpu.registers.r, 1);
    assert_eq!(cpu.registers.b, 1);
}

#[test]
fn should_inc_c() {
    let mut cpu = Cpu::new(Registers::new(), TestBus::new());
    cpu.bus.write8(0, 1 << 3 | 4);
    cpu.step();
    assert_eq!(cpu.registers.pc, 1);
    assert_eq!(cpu.registers.r, 1);
    assert_eq!(cpu.registers.c, 1);
}

#[test]
fn should_inc_d() {
    let mut cpu = Cpu::new(Registers::new(), TestBus::new());
    cpu.bus.write8(0, 2 << 3 | 4);
    cpu.step();
    assert_eq!(cpu.registers.pc, 1);
    assert_eq!(cpu.registers.r, 1);
    assert_eq!(cpu.registers.d, 1);
}

#[test]
fn should_inc_e() {
    let mut cpu = Cpu::new(Registers::new(), TestBus::new());
    cpu.bus.write8(0, 3 << 3 | 4);
    cpu.step();
    assert_eq!(cpu.registers.pc, 1);
    assert_eq!(cpu.registers.r, 1);
    assert_eq!(cpu.registers.e, 1);
}

#[test]
fn should_inc_h() {
    let mut cpu = Cpu::new(Registers::new(), TestBus::new());
    cpu.bus.write8(0, 4 << 3 | 4);
    cpu.step();
    assert_eq!(cpu.registers.pc, 1);
    assert_eq!(cpu.registers.r, 1);
    assert_eq!(cpu.registers.h, 1);
}

#[test]
fn should_inc_l() {
    let mut cpu = Cpu::new(Registers::new(), TestBus::new());
    cpu.bus.write8(0, 5 << 3 | 4);
    cpu.step();
    assert_eq!(cpu.registers.pc, 1);
    assert_eq!(cpu.registers.r, 1);
    assert_eq!(cpu.registers.l, 1);
}

#[test]
fn should_inc_hl() {
    let mut cpu = Cpu::new(Registers::new(), TestBus::new());
    cpu.registers.set_hl(0xBEEF);
    cpu.bus.write8(0, 6 << 3 | 4);
    cpu.step();
    assert_eq!(cpu.registers.pc, 1);
    assert_eq!(cpu.registers.r, 1);
    assert_eq!(cpu.bus.read8(0xBEEF), 1);
}

#[test]
fn should_set_sign_flag_on_inc() {
    let mut cpu = Cpu::new(Registers::new(), TestBus::new());
    cpu.registers.a = 0x7F;
    cpu.bus.write8(0, 7 << 3 | 4);
    cpu.step();
    assert_eq!(cpu.registers.pc, 1);
    assert_eq!(cpu.registers.r, 1);
    assert!(bit_is_set(cpu.registers.f, flags::SIGN));
}

#[test]
fn should_set_zero_flag_on_inc() {
    let mut cpu = Cpu::new(Registers::new(), TestBus::new());
    cpu.registers.a = 0xFF;
    cpu.bus.write8(0, 7 << 3 | 4);
    cpu.step();
    assert_eq!(cpu.registers.pc, 1);
    assert_eq!(cpu.registers.r, 1);
    assert!(bit_is_set(cpu.registers.f, flags::ZERO));
}

#[test]
fn should_set_half_carry_flag_on_inc() {
    let mut cpu = Cpu::new(Registers::new(), TestBus::new());
    cpu.registers.a = 0x0F;
    cpu.bus.write8(0, 7 << 3 | 4);
    cpu.step();
    assert_eq!(cpu.registers.pc, 1);
    assert_eq!(cpu.registers.r, 1);
    assert!(bit_is_set(cpu.registers.f, flags::HALF_CARRY));
}

#[test]
fn should_set_overflow_on_inc() {
    let mut cpu = Cpu::new(Registers::new(), TestBus::new());
    cpu.registers.a = 0x7F;
    cpu.bus.write8(0, 7 << 3 | 4);
    cpu.step();
    assert_eq!(cpu.registers.pc, 1);
    assert_eq!(cpu.registers.r, 1);
    assert!(bit_is_set(cpu.registers.f, flags::PARITY_OVERFLOW));
}

#[test]
fn should_reset_add_subtract_on_inc() {
    let mut cpu = Cpu::new(Registers::new(), TestBus::new());
    cpu.registers.f = set_bit(cpu.registers.f, flags::ADD_SUBTRACT, true);
    cpu.registers.a = 0xAB;
    cpu.bus.write8(0, 7 << 3 | 4);
    cpu.step();
    assert_eq!(cpu.registers.pc, 1);
    assert_eq!(cpu.registers.r, 1);
    assert!(!bit_is_set(cpu.registers.f, flags::ADD_SUBTRACT));
}

#[test]
fn should_dec_a() {
    let mut cpu = Cpu::new(Registers::new(), TestBus::new());
    cpu.registers.a = 2;
    cpu.bus.write8(0, 7 << 3 | 5);
    cpu.step();
    assert_eq!(cpu.registers.pc, 1);
    assert_eq!(cpu.registers.r, 1);
    assert_eq!(cpu.registers.a, 1);
}

#[test]
fn should_dec_b() {
    let mut cpu = Cpu::new(Registers::new(), TestBus::new());
    cpu.registers.b = 2;
    cpu.bus.write8(0, 5);
    cpu.step();
    assert_eq!(cpu.registers.pc, 1);
    assert_eq!(cpu.registers.r, 1);
    assert_eq!(cpu.registers.b, 1);
}

#[test]
fn should_dec_c() {
    let mut cpu = Cpu::new(Registers::new(), TestBus::new());
    cpu.registers.c = 2;
    cpu.bus.write8(0, 1 << 3 | 5);
    cpu.step();
    assert_eq!(cpu.registers.pc, 1);
    assert_eq!(cpu.registers.r, 1);
    assert_eq!(cpu.registers.c, 1);
}

#[test]
fn should_dec_d() {
    let mut cpu = Cpu::new(Registers::new(), TestBus::new());
    cpu.registers.d = 2;
    cpu.bus.write8(0, 2 << 3 | 5);
    cpu.step();
    assert_eq!(cpu.registers.pc, 1);
    assert_eq!(cpu.registers.r, 1);
    assert_eq!(cpu.registers.d, 1);
}

#[test]
fn should_dec_e() {
    let mut cpu = Cpu::new(Registers::new(), TestBus::new());
    cpu.registers.e = 2;
    cpu.bus.write8(0, 3 << 3 | 5);
    cpu.step();
    assert_eq!(cpu.registers.pc, 1);
    assert_eq!(cpu.registers.r, 1);
    assert_eq!(cpu.registers.e, 1);
}

#[test]
fn should_dec_h() {
    let mut cpu = Cpu::new(Registers::new(), TestBus::new());
    cpu.registers.h = 2;
    cpu.bus.write8(0, 4 << 3 | 5);
    cpu.step();
    assert_eq!(cpu.registers.pc, 1);
    assert_eq!(cpu.registers.r, 1);
    assert_eq!(cpu.registers.h, 1);
}

#[test]
fn should_dec_l() {
    let mut cpu = Cpu::new(Registers::new(), TestBus::new());
    cpu.registers.l = 2;
    cpu.bus.write8(0, 5 << 3 | 5);
    cpu.step();
    assert_eq!(cpu.registers.pc, 1);
    assert_eq!(cpu.registers.r, 1);
    assert_eq!(cpu.registers.l, 1);
}

#[test]
fn should_dec_hl() {
    let mut cpu = Cpu::new(Registers::new(), TestBus::new());
    cpu.bus.write8(0xBEEF, 2);
    cpu.registers.set_hl(0xBEEF);
    cpu.bus.write8(0, 6 << 3 | 5);
    cpu.step();
    assert_eq!(cpu.registers.pc, 1);
    assert_eq!(cpu.registers.r, 1);
    assert_eq!(cpu.bus.read8(0xBEEF), 1);
}

#[test]
fn should_set_sign_flag_on_dec() {
    let mut cpu = Cpu::new(Registers::new(), TestBus::new());
    cpu.registers.a = 0x0;
    cpu.bus.write8(0, 7 << 3 | 5);
    cpu.step();
    assert_eq!(cpu.registers.pc, 1);
    assert_eq!(cpu.registers.r, 1);
    assert!(bit_is_set(cpu.registers.f, flags::SIGN));
}

#[test]
fn should_set_zero_flag_on_dec() {
    let mut cpu = Cpu::new(Registers::new(), TestBus::new());
    cpu.registers.a = 0x1;
    cpu.bus.write8(0, 7 << 3 | 5);
    cpu.step();
    assert_eq!(cpu.registers.pc, 1);
    assert_eq!(cpu.registers.r, 1);
    assert!(bit_is_set(cpu.registers.f, flags::ZERO));
}

#[test]
fn should_set_half_carry_flag_on_dec() {
    let mut cpu = Cpu::new(Registers::new(), TestBus::new());
    cpu.registers.a = 0x10;
    cpu.bus.write8(0, 7 << 3 | 5);
    cpu.step();
    assert_eq!(cpu.registers.pc, 1);
    assert_eq!(cpu.registers.r, 1);
    assert!(bit_is_set(cpu.registers.f, flags::HALF_CARRY));
}

#[test]
fn should_set_overflow_on_dec() {
    let mut cpu = Cpu::new(Registers::new(), TestBus::new());
    cpu.registers.a = 0x80;
    cpu.bus.write8(0, 7 << 3 | 5);
    cpu.step();
    assert_eq!(cpu.registers.pc, 1);
    assert_eq!(cpu.registers.r, 1);
    assert!(bit_is_set(cpu.registers.f, flags::PARITY_OVERFLOW));
}

#[test]
fn should_reset_add_subtract_on_dec() {
    let mut cpu = Cpu::new(Registers::new(), TestBus::new());
    cpu.registers.f = set_bit(cpu.registers.f, flags::ADD_SUBTRACT, true);
    cpu.registers.a = 0xAB;
    cpu.bus.write8(0, 7 << 3 | 5);
    cpu.step();
    assert_eq!(cpu.registers.pc, 1);
    assert_eq!(cpu.registers.r, 1);
    assert!(bit_is_set(cpu.registers.f, flags::ADD_SUBTRACT));
}

#[test]
fn should_add_a_a() {
    let mut cpu = Cpu::new(Registers::new(), TestBus::new());
    cpu.registers.a = 1;
    cpu.bus.write8(0, 2 << 6 | 7);
    cpu.step();
    assert_eq!(cpu.registers.pc, 1);
    assert_eq!(cpu.registers.r, 1);
    assert_eq!(cpu.registers.a, 2);
}

#[test]
fn should_add_a_b() {
    let mut cpu = Cpu::new(Registers::new(), TestBus::new());
    cpu.registers.a = 1;
    cpu.registers.b = 2;
    cpu.bus.write8(0, 2 << 6);
    cpu.step();
    assert_eq!(cpu.registers.pc, 1);
    assert_eq!(cpu.registers.r, 1);
    assert_eq!(cpu.registers.a, 3);
}

#[test]
fn should_add_a_c() {
    let mut cpu = Cpu::new(Registers::new(), TestBus::new());
    cpu.registers.a = 1;
    cpu.registers.c = 2;
    cpu.bus.write8(0, 2 << 6 | 1);
    cpu.step();
    assert_eq!(cpu.registers.pc, 1);
    assert_eq!(cpu.registers.r, 1);
    assert_eq!(cpu.registers.a, 3);
}

#[test]
fn should_add_a_d() {
    let mut cpu = Cpu::new(Registers::new(), TestBus::new());
    cpu.registers.a = 1;
    cpu.registers.d = 2;
    cpu.bus.write8(0, 2 << 6 | 2);
    cpu.step();
    assert_eq!(cpu.registers.pc, 1);
    assert_eq!(cpu.registers.r, 1);
    assert_eq!(cpu.registers.a, 3);
}

#[test]
fn should_add_a_e() {
    let mut cpu = Cpu::new(Registers::new(), TestBus::new());
    cpu.registers.a = 1;
    cpu.registers.e = 2;
    cpu.bus.write8(0, 2 << 6 | 3);
    cpu.step();
    assert_eq!(cpu.registers.pc, 1);
    assert_eq!(cpu.registers.r, 1);
    assert_eq!(cpu.registers.a, 3);
}

#[test]
fn should_add_a_h() {
    let mut cpu = Cpu::new(Registers::new(), TestBus::new());
    cpu.registers.a = 1;
    cpu.registers.h = 2;
    cpu.bus.write8(0, 2 << 6 | 4);
    cpu.step();
    assert_eq!(cpu.registers.pc, 1);
    assert_eq!(cpu.registers.r, 1);
    assert_eq!(cpu.registers.a, 3);
}

#[test]
fn should_add_a_l() {
    let mut cpu = Cpu::new(Registers::new(), TestBus::new());
    cpu.registers.a = 1;
    cpu.registers.l = 2;
    cpu.bus.write8(0, 2 << 6 | 5);
    cpu.step();
    assert_eq!(cpu.registers.pc, 1);
    assert_eq!(cpu.registers.r, 1);
    assert_eq!(cpu.registers.a, 3);
}

#[test]
fn should_add_a_hl() {
    let mut cpu = Cpu::new(Registers::new(), TestBus::new());
    cpu.registers.a = 1;
    cpu.registers.l = 2;
    cpu.registers.set_hl(0xBEEF);
    cpu.bus.write8(0, 2 << 6 | 6);
    cpu.bus.write8(0xBEEF, 2);
    cpu.step();
    assert_eq!(cpu.registers.pc, 1);
    assert_eq!(cpu.registers.r, 1);
    assert_eq!(cpu.registers.a, 3);
}

#[test]
fn should_adc_a_a() {
    let mut cpu = Cpu::new(Registers::new(), TestBus::new());
    cpu.registers.a = 1;
    cpu.registers.f = set_bit(cpu.registers.f, flags::CARRY, true);
    cpu.bus.write8(0, 2 << 6 | 1 << 3 | 7);
    cpu.step();
    assert_eq!(cpu.registers.pc, 1);
    assert_eq!(cpu.registers.r, 1);
    assert_eq!(cpu.registers.a, 3);
}

#[test]
fn should_adc_a_b() {
    let mut cpu = Cpu::new(Registers::new(), TestBus::new());
    cpu.registers.a = 1;
    cpu.registers.b = 2;
    cpu.registers.f = set_bit(cpu.registers.f, flags::CARRY, true);
    cpu.bus.write8(0, 2 << 6 | 1 << 3);
    cpu.step();
    assert_eq!(cpu.registers.pc, 1);
    assert_eq!(cpu.registers.r, 1);
    assert_eq!(cpu.registers.a, 4);
}

#[test]
fn should_adc_a_c() {
    let mut cpu = Cpu::new(Registers::new(), TestBus::new());
    cpu.registers.a = 1;
    cpu.registers.c = 2;
    cpu.registers.f = set_bit(cpu.registers.f, flags::CARRY, true);
    cpu.bus.write8(0, 2 << 6 | 1 << 3 | 1);
    cpu.step();
    assert_eq!(cpu.registers.pc, 1);
    assert_eq!(cpu.registers.r, 1);
    assert_eq!(cpu.registers.a, 4);
}

#[test]
fn should_adc_a_d() {
    let mut cpu = Cpu::new(Registers::new(), TestBus::new());
    cpu.registers.a = 1;
    cpu.registers.d = 2;
    cpu.registers.f = set_bit(cpu.registers.f, flags::CARRY, true);
    cpu.bus.write8(0, 2 << 6 | 1 << 3 | 2);
    cpu.step();
    assert_eq!(cpu.registers.pc, 1);
    assert_eq!(cpu.registers.r, 1);
    assert_eq!(cpu.registers.a, 4);
}

#[test]
fn should_adc_a_e() {
    let mut cpu = Cpu::new(Registers::new(), TestBus::new());
    cpu.registers.a = 1;
    cpu.registers.e = 2;
    cpu.registers.f = set_bit(cpu.registers.f, flags::CARRY, true);
    cpu.bus.write8(0, 2 << 6 | 1 << 3 | 3);
    cpu.step();
    assert_eq!(cpu.registers.pc, 1);
    assert_eq!(cpu.registers.r, 1);
    assert_eq!(cpu.registers.a, 4);
}

#[test]
fn should_adc_a_h() {
    let mut cpu = Cpu::new(Registers::new(), TestBus::new());
    cpu.registers.a = 1;
    cpu.registers.h = 2;
    cpu.registers.f = set_bit(cpu.registers.f, flags::CARRY, true);
    cpu.bus.write8(0, 2 << 6 | 1 << 3 | 4);
    cpu.step();
    assert_eq!(cpu.registers.pc, 1);
    assert_eq!(cpu.registers.r, 1);
    assert_eq!(cpu.registers.a, 4);
}

#[test]
fn should_adc_a_l() {
    let mut cpu = Cpu::new(Registers::new(), TestBus::new());
    cpu.registers.a = 1;
    cpu.registers.l = 2;
    cpu.registers.f = set_bit(cpu.registers.f, flags::CARRY, true);
    cpu.bus.write8(0, 2 << 6 | 1 << 3 | 5);
    cpu.step();
    assert_eq!(cpu.registers.pc, 1);
    assert_eq!(cpu.registers.r, 1);
    assert_eq!(cpu.registers.a, 4);
}

#[test]
fn should_adc_a_hl() {
    let mut cpu = Cpu::new(Registers::new(), TestBus::new());
    cpu.registers.a = 1;
    cpu.registers.l = 2;
    cpu.registers.set_hl(0xBEEF);
    cpu.registers.f = set_bit(cpu.registers.f, flags::CARRY, true);
    cpu.bus.write8(0, 2 << 6 | 1 << 3 | 6);
    cpu.bus.write8(0xBEEF, 2);
    cpu.step();
    assert_eq!(cpu.registers.pc, 1);
    assert_eq!(cpu.registers.r, 1);
    assert_eq!(cpu.registers.a, 4);
}

#[test]
fn should_add_a_n() {
    let mut cpu = Cpu::new(Registers::new(), TestBus::new());
    cpu.registers.a = 1;
    cpu.bus.write8(0, 3 << 6 | 6);
    cpu.bus.write8(1, 2);
    cpu.step();
    assert_eq!(cpu.registers.pc, 2);
    assert_eq!(cpu.registers.r, 1);
    assert_eq!(cpu.registers.a, 3);
}

#[test]
fn should_adc_a_n() {
    let mut cpu = Cpu::new(Registers::new(), TestBus::new());
    cpu.registers.a = 1;
    cpu.registers.f = set_bit(cpu.registers.f, flags::CARRY, true);
    cpu.bus.write8(0, 3 << 6 | 1 << 3 | 6);
    cpu.bus.write8(1, 2);
    cpu.step();
    assert_eq!(cpu.registers.pc, 2);
    assert_eq!(cpu.registers.r, 1);
    assert_eq!(cpu.registers.a, 4);
}

#[test]
fn should_sub_a_a() {
    let mut cpu = Cpu::new(Registers::new(), TestBus::new());
    cpu.registers.a = 1;
    cpu.bus.write8(0, 2 << 6 | 2 << 3 | 7);
    cpu.step();
    assert_eq!(cpu.registers.pc, 1);
    assert_eq!(cpu.registers.r, 1);
    assert_eq!(cpu.registers.a, 0);
}

#[test]
fn should_sub_a_b() {
    let mut cpu = Cpu::new(Registers::new(), TestBus::new());
    cpu.registers.a = 1;
    cpu.registers.b = 2;
    cpu.bus.write8(0, 2 << 6 | 2 << 3);
    cpu.step();
    assert_eq!(cpu.registers.pc, 1);
    assert_eq!(cpu.registers.r, 1);
    assert_eq!(cpu.registers.a, 0xFF);
}

#[test]
fn should_sub_a_c() {
    let mut cpu = Cpu::new(Registers::new(), TestBus::new());
    cpu.registers.a = 1;
    cpu.registers.c = 2;
    cpu.bus.write8(0, 2 << 6 | 2 << 3 | 1);
    cpu.step();
    assert_eq!(cpu.registers.pc, 1);
    assert_eq!(cpu.registers.r, 1);
    assert_eq!(cpu.registers.a, 0xFF);
}

#[test]
fn should_sub_a_d() {
    let mut cpu = Cpu::new(Registers::new(), TestBus::new());
    cpu.registers.a = 1;
    cpu.registers.d = 2;
    cpu.bus.write8(0, 2 << 6 | 2 << 3 | 2);
    cpu.step();
    assert_eq!(cpu.registers.pc, 1);
    assert_eq!(cpu.registers.r, 1);
    assert_eq!(cpu.registers.a, 0xFF);
}

#[test]
fn should_sub_a_e() {
    let mut cpu = Cpu::new(Registers::new(), TestBus::new());
    cpu.registers.a = 1;
    cpu.registers.e = 2;
    cpu.bus.write8(0, 2 << 6 | 2 << 3 | 3);
    cpu.step();
    assert_eq!(cpu.registers.pc, 1);
    assert_eq!(cpu.registers.r, 1);
    assert_eq!(cpu.registers.a, 0xFF);
}

#[test]
fn should_sub_a_h() {
    let mut cpu = Cpu::new(Registers::new(), TestBus::new());
    cpu.registers.a = 1;
    cpu.registers.h = 2;
    cpu.bus.write8(0, 2 << 6 | 2 << 3 | 4);
    cpu.step();
    assert_eq!(cpu.registers.pc, 1);
    assert_eq!(cpu.registers.r, 1);
    assert_eq!(cpu.registers.a, 0xFF);
}

#[test]
fn should_sub_a_l() {
    let mut cpu = Cpu::new(Registers::new(), TestBus::new());
    cpu.registers.a = 1;
    cpu.registers.l = 2;
    cpu.bus.write8(0, 2 << 6 | 2 << 3 | 5);
    cpu.step();
    assert_eq!(cpu.registers.pc, 1);
    assert_eq!(cpu.registers.r, 1);
    assert_eq!(cpu.registers.a, 0xFF);
}

#[test]
fn should_sub_a_hl() {
    let mut cpu = Cpu::new(Registers::new(), TestBus::new());
    cpu.registers.a = 1;
    cpu.registers.set_hl(0xBEEF);
    cpu.bus.write8(0xBEEF, 2);
    cpu.bus.write8(0, 2 << 6 | 2 << 3 | 6);
    cpu.step();
    assert_eq!(cpu.registers.pc, 1);
    assert_eq!(cpu.registers.r, 1);
    assert_eq!(cpu.registers.a, 0xFF);
}

#[test]
fn should_sbc_a_a() {
    let mut cpu = Cpu::new(Registers::new(), TestBus::new());
    cpu.registers.a = 1;
    cpu.registers.f = set_bit(cpu.registers.f, flags::CARRY, true);
    cpu.bus.write8(0, 2 << 6 | 3 << 3 | 7);
    cpu.step();
    assert_eq!(cpu.registers.pc, 1);
    assert_eq!(cpu.registers.r, 1);
    assert_eq!(cpu.registers.a, 0xFF);
}

#[test]
fn should_sbc_a_b() {
    let mut cpu = Cpu::new(Registers::new(), TestBus::new());
    cpu.registers.a = 1;
    cpu.registers.b = 2;
    cpu.registers.f = set_bit(cpu.registers.f, flags::CARRY, true);
    cpu.bus.write8(0, 2 << 6 | 3 << 3);
    cpu.step();
    assert_eq!(cpu.registers.pc, 1);
    assert_eq!(cpu.registers.r, 1);
    assert_eq!(cpu.registers.a, 0xFE);
}

#[test]
fn should_sbc_a_c() {
    let mut cpu = Cpu::new(Registers::new(), TestBus::new());
    cpu.registers.a = 1;
    cpu.registers.c = 2;
    cpu.registers.f = set_bit(cpu.registers.f, flags::CARRY, true);
    cpu.bus.write8(0, 2 << 6 | 3 << 3 | 1);
    cpu.step();
    assert_eq!(cpu.registers.pc, 1);
    assert_eq!(cpu.registers.r, 1);
    assert_eq!(cpu.registers.a, 0xFE);
}

#[test]
fn should_sbc_a_d() {
    let mut cpu = Cpu::new(Registers::new(), TestBus::new());
    cpu.registers.a = 1;
    cpu.registers.d = 2;
    cpu.registers.f = set_bit(cpu.registers.f, flags::CARRY, true);
    cpu.bus.write8(0, 2 << 6 | 3 << 3 | 2);
    cpu.step();
    assert_eq!(cpu.registers.pc, 1);
    assert_eq!(cpu.registers.r, 1);
    assert_eq!(cpu.registers.a, 0xFE);
}

#[test]
fn should_sbc_a_e() {
    let mut cpu = Cpu::new(Registers::new(), TestBus::new());
    cpu.registers.a = 1;
    cpu.registers.e = 2;
    cpu.registers.f = set_bit(cpu.registers.f, flags::CARRY, true);
    cpu.bus.write8(0, 2 << 6 | 3 << 3 | 3);
    cpu.step();
    assert_eq!(cpu.registers.pc, 1);
    assert_eq!(cpu.registers.r, 1);
    assert_eq!(cpu.registers.a, 0xFE);
}

#[test]
fn should_sbc_a_h() {
    let mut cpu = Cpu::new(Registers::new(), TestBus::new());
    cpu.registers.a = 1;
    cpu.registers.h = 2;
    cpu.registers.f = set_bit(cpu.registers.f, flags::CARRY, true);
    cpu.bus.write8(0, 2 << 6 | 3 << 3 | 4);
    cpu.step();
    assert_eq!(cpu.registers.pc, 1);
    assert_eq!(cpu.registers.r, 1);
    assert_eq!(cpu.registers.a, 0xFE);
}

#[test]
fn should_sbc_a_l() {
    let mut cpu = Cpu::new(Registers::new(), TestBus::new());
    cpu.registers.a = 1;
    cpu.registers.l = 2;
    cpu.registers.f = set_bit(cpu.registers.f, flags::CARRY, true);
    cpu.bus.write8(0, 2 << 6 | 3 << 3 | 5);
    cpu.step();
    assert_eq!(cpu.registers.pc, 1);
    assert_eq!(cpu.registers.r, 1);
    assert_eq!(cpu.registers.a, 0xFE);
}

#[test]
fn should_sbc_a_hl() {
    let mut cpu = Cpu::new(Registers::new(), TestBus::new());
    cpu.registers.a = 1;
    cpu.registers.f = set_bit(cpu.registers.f, flags::CARRY, true);
    cpu.registers.set_hl(0xBEEF);
    cpu.bus.write8(0xBEEF, 2);
    cpu.bus.write8(0, 2 << 6 | 3 << 3 | 6);
    cpu.step();
    assert_eq!(cpu.registers.pc, 1);
    assert_eq!(cpu.registers.r, 1);
    assert_eq!(cpu.registers.a, 0xFE);
}

#[test]
fn should_sub_a_n() {
    let mut cpu = Cpu::new(Registers::new(), TestBus::new());
    cpu.registers.a = 1;
    cpu.bus.write8(0, 3 << 6 | 2 << 3 | 6);
    cpu.bus.write8(1, 2);
    cpu.step();
    assert_eq!(cpu.registers.pc, 2);
    assert_eq!(cpu.registers.r, 1);
    assert_eq!(cpu.registers.a, 0xFF);
}

#[test]
fn should_sbc_a_n() {
    let mut cpu = Cpu::new(Registers::new(), TestBus::new());
    cpu.registers.a = 1;
    cpu.registers.f = set_bit(cpu.registers.f, flags::CARRY, true);
    cpu.bus.write8(0, 3 << 6 | 3 << 3 | 6);
    cpu.bus.write8(1, 2);
    cpu.step();
    assert_eq!(cpu.registers.pc, 2);
    assert_eq!(cpu.registers.r, 1);
    assert_eq!(cpu.registers.a, 0xFE);
}

#[test]
fn should_cp_a_a() {
    let mut cpu = Cpu::new(Registers::new(), TestBus::new());
    cpu.registers.a = 1;
    cpu.bus.write8(0, 2 << 6 | 7 << 3 | 7);
    cpu.step();
    assert_eq!(cpu.registers.pc, 1);
    assert_eq!(cpu.registers.r, 1);
    assert_eq!(cpu.registers.a, 1);
    assert!(bit_is_set(cpu.registers.f, flags::ZERO));
}

#[test]
fn should_cp_a_b() {
    let mut cpu = Cpu::new(Registers::new(), TestBus::new());
    cpu.registers.a = 1;
    cpu.registers.b = 1;
    cpu.bus.write8(0, 2 << 6 | 7 << 3);
    cpu.step();
    assert_eq!(cpu.registers.pc, 1);
    assert_eq!(cpu.registers.r, 1);
    assert_eq!(cpu.registers.a, 1);
    assert!(bit_is_set(cpu.registers.f, flags::ZERO));
}

#[test]
fn should_cp_a_c() {
    let mut cpu = Cpu::new(Registers::new(), TestBus::new());
    cpu.registers.a = 1;
    cpu.registers.c = 1;
    cpu.bus.write8(0, 2 << 6 | 7 << 3 | 1);
    cpu.step();
    assert_eq!(cpu.registers.pc, 1);
    assert_eq!(cpu.registers.r, 1);
    assert_eq!(cpu.registers.a, 1);
    assert!(bit_is_set(cpu.registers.f, flags::ZERO));
}

#[test]
fn should_cp_a_d() {
    let mut cpu = Cpu::new(Registers::new(), TestBus::new());
    cpu.registers.a = 1;
    cpu.registers.d = 1;
    cpu.bus.write8(0, 2 << 6 | 7 << 3 | 2);
    cpu.step();
    assert_eq!(cpu.registers.pc, 1);
    assert_eq!(cpu.registers.r, 1);
    assert_eq!(cpu.registers.a, 1);
    assert!(bit_is_set(cpu.registers.f, flags::ZERO));
}

#[test]
fn should_cp_a_e() {
    let mut cpu = Cpu::new(Registers::new(), TestBus::new());
    cpu.registers.a = 1;
    cpu.registers.e = 1;
    cpu.bus.write8(0, 2 << 6 | 7 << 3 | 3);
    cpu.step();
    assert_eq!(cpu.registers.pc, 1);
    assert_eq!(cpu.registers.r, 1);
    assert_eq!(cpu.registers.a, 1);
    assert!(bit_is_set(cpu.registers.f, flags::ZERO));
}

#[test]
fn should_cp_a_h() {
    let mut cpu = Cpu::new(Registers::new(), TestBus::new());
    cpu.registers.a = 1;
    cpu.registers.h = 1;
    cpu.bus.write8(0, 2 << 6 | 7 << 3 | 4);
    cpu.step();
    assert_eq!(cpu.registers.pc, 1);
    assert_eq!(cpu.registers.r, 1);
    assert_eq!(cpu.registers.a, 1);
    assert!(bit_is_set(cpu.registers.f, flags::ZERO));
}

#[test]
fn should_cp_a_l() {
    let mut cpu = Cpu::new(Registers::new(), TestBus::new());
    cpu.registers.a = 1;
    cpu.registers.l = 1;
    cpu.bus.write8(0, 2 << 6 | 7 << 3 | 5);
    cpu.step();
    assert_eq!(cpu.registers.pc, 1);
    assert_eq!(cpu.registers.r, 1);
    assert_eq!(cpu.registers.a, 1);
    assert!(bit_is_set(cpu.registers.f, flags::ZERO));
}

#[test]
fn should_cp_a_hl() {
    let mut cpu = Cpu::new(Registers::new(), TestBus::new());
    cpu.registers.a = 1;
    cpu.registers.set_hl(0xBEEF);
    cpu.bus.write8(0xBEEF, 1);
    cpu.bus.write8(0, 2 << 6 | 7 << 3 | 6);
    cpu.step();
    assert_eq!(cpu.registers.pc, 1);
    assert_eq!(cpu.registers.r, 1);
    assert_eq!(cpu.registers.a, 1);
    assert!(bit_is_set(cpu.registers.f, flags::ZERO));
}

#[test]
fn should_cp_a_n() {
    let mut cpu = Cpu::new(Registers::new(), TestBus::new());
    cpu.registers.a = 1;
    cpu.bus.write8(0, 3 << 6 | 7 << 3 | 6);
    cpu.bus.write8(1, 1);
    cpu.step();
    assert_eq!(cpu.registers.pc, 2);
    assert_eq!(cpu.registers.r, 1);
    assert_eq!(cpu.registers.a, 1);
    assert!(bit_is_set(cpu.registers.f, flags::ZERO));
}

#[test]
fn should_and_a_a() {
    let mut cpu = Cpu::new(Registers::new(), TestBus::new());
    cpu.registers.a = 0xAA;
    cpu.bus.write8(0, 2 << 6 | 4 << 3 | 7);
    cpu.bus.write8(1, 1);
    cpu.step();
    assert_eq!(cpu.registers.pc, 1);
    assert_eq!(cpu.registers.r, 1);
    assert_eq!(cpu.registers.a, 0xAA);
    assert!(bit_is_set(cpu.registers.f, flags::HALF_CARRY));
}

#[test]
fn should_and_a_b() {
    let mut cpu = Cpu::new(Registers::new(), TestBus::new());
    cpu.registers.a = 0xAA;
    cpu.registers.b = 0x0F;
    cpu.bus.write8(0, 2 << 6 | 4 << 3);
    cpu.bus.write8(1, 1);
    cpu.step();
    assert_eq!(cpu.registers.pc, 1);
    assert_eq!(cpu.registers.r, 1);
    assert_eq!(cpu.registers.a, 0x0A);
    assert!(bit_is_set(cpu.registers.f, flags::HALF_CARRY));
}

#[test]
fn should_and_a_c() {
    let mut cpu = Cpu::new(Registers::new(), TestBus::new());
    cpu.registers.a = 0xAA;
    cpu.registers.c = 0x0F;
    cpu.bus.write8(0, 2 << 6 | 4 << 3 | 1);
    cpu.bus.write8(1, 1);
    cpu.step();
    assert_eq!(cpu.registers.pc, 1);
    assert_eq!(cpu.registers.r, 1);
    assert_eq!(cpu.registers.a, 0x0A);
    assert!(bit_is_set(cpu.registers.f, flags::HALF_CARRY));
}

#[test]
fn should_and_a_d() {
    let mut cpu = Cpu::new(Registers::new(), TestBus::new());
    cpu.registers.a = 0xAA;
    cpu.registers.d = 0x0F;
    cpu.bus.write8(0, 2 << 6 | 4 << 3 | 2);
    cpu.step();
    assert_eq!(cpu.registers.pc, 1);
    assert_eq!(cpu.registers.r, 1);
    assert_eq!(cpu.registers.a, 0x0A);
    assert!(bit_is_set(cpu.registers.f, flags::HALF_CARRY));
}

#[test]
fn should_and_a_e() {
    let mut cpu = Cpu::new(Registers::new(), TestBus::new());
    cpu.registers.a = 0xAA;
    cpu.registers.e = 0x0F;
    cpu.bus.write8(0, 2 << 6 | 4 << 3 | 3);
    cpu.step();
    assert_eq!(cpu.registers.pc, 1);
    assert_eq!(cpu.registers.r, 1);
    assert_eq!(cpu.registers.a, 0x0A);
    assert!(bit_is_set(cpu.registers.f, flags::HALF_CARRY));
}

#[test]
fn should_and_a_h() {
    let mut cpu = Cpu::new(Registers::new(), TestBus::new());
    cpu.registers.a = 0xAA;
    cpu.registers.h = 0x0F;
    cpu.bus.write8(0, 2 << 6 | 4 << 3 | 4);
    cpu.step();
    assert_eq!(cpu.registers.pc, 1);
    assert_eq!(cpu.registers.r, 1);
    assert_eq!(cpu.registers.a, 0x0A);
    assert!(bit_is_set(cpu.registers.f, flags::HALF_CARRY));
}

#[test]
fn should_and_a_l() {
    let mut cpu = Cpu::new(Registers::new(), TestBus::new());
    cpu.registers.a = 0xAA;
    cpu.registers.l = 0x0F;
    cpu.bus.write8(0, 2 << 6 | 4 << 3 | 5);
    cpu.step();
    assert_eq!(cpu.registers.pc, 1);
    assert_eq!(cpu.registers.r, 1);
    assert_eq!(cpu.registers.a, 0x0A);
    assert!(bit_is_set(cpu.registers.f, flags::HALF_CARRY));
}

#[test]
fn should_and_a_hl() {
    let mut cpu = Cpu::new(Registers::new(), TestBus::new());
    cpu.registers.a = 0xAA;
    cpu.registers.set_hl(0xBEEF);
    cpu.bus.write8(0, 2 << 6 | 4 << 3 | 6);
    cpu.bus.write8(0xBEEF, 0x0F);
    cpu.step();
    assert_eq!(cpu.registers.pc, 1);
    assert_eq!(cpu.registers.r, 1);
    assert_eq!(cpu.registers.a, 0x0A);
    assert!(bit_is_set(cpu.registers.f, flags::HALF_CARRY));
}

#[test]
fn should_or_a_a() {
    let mut cpu = Cpu::new(Registers::new(), TestBus::new());
    cpu.registers.a = 0xAA;
    cpu.bus.write8(0, 2 << 6 | 6 << 3 | 7);
    cpu.bus.write8(1, 1);
    cpu.step();
    assert_eq!(cpu.registers.pc, 1);
    assert_eq!(cpu.registers.r, 1);
    assert_eq!(cpu.registers.a, 0xAA);
    assert!(!bit_is_set(cpu.registers.f, flags::HALF_CARRY));
}

#[test]
fn should_or_a_b() {
    let mut cpu = Cpu::new(Registers::new(), TestBus::new());
    cpu.registers.a = 0xAA;
    cpu.registers.b = 0x55;
    cpu.bus.write8(0, 2 << 6 | 6 << 3);
    cpu.bus.write8(1, 1);
    cpu.step();
    assert_eq!(cpu.registers.pc, 1);
    assert_eq!(cpu.registers.r, 1);
    assert_eq!(cpu.registers.a, 0xFF);
    assert!(!bit_is_set(cpu.registers.f, flags::HALF_CARRY));
}

#[test]
fn should_or_a_c() {
    let mut cpu = Cpu::new(Registers::new(), TestBus::new());
    cpu.registers.a = 0xAA;
    cpu.registers.c = 0x55;
    cpu.bus.write8(0, 2 << 6 | 6 << 3 | 1);
    cpu.bus.write8(1, 1);
    cpu.step();
    assert_eq!(cpu.registers.pc, 1);
    assert_eq!(cpu.registers.r, 1);
    assert_eq!(cpu.registers.a, 0xFF);
    assert!(!bit_is_set(cpu.registers.f, flags::HALF_CARRY));
}

#[test]
fn should_or_a_d() {
    let mut cpu = Cpu::new(Registers::new(), TestBus::new());
    cpu.registers.a = 0xAA;
    cpu.registers.d = 0x55;
    cpu.bus.write8(0, 2 << 6 | 6 << 3 | 2);
    cpu.step();
    assert_eq!(cpu.registers.pc, 1);
    assert_eq!(cpu.registers.r, 1);
    assert_eq!(cpu.registers.a, 0xFF);
    assert!(!bit_is_set(cpu.registers.f, flags::HALF_CARRY));
}

#[test]
fn should_or_a_e() {
    let mut cpu = Cpu::new(Registers::new(), TestBus::new());
    cpu.registers.a = 0xAA;
    cpu.registers.e = 0x55;
    cpu.bus.write8(0, 2 << 6 | 6 << 3 | 3);
    cpu.step();
    assert_eq!(cpu.registers.pc, 1);
    assert_eq!(cpu.registers.r, 1);
    assert_eq!(cpu.registers.a, 0xFF);
    assert!(!bit_is_set(cpu.registers.f, flags::HALF_CARRY));
}

#[test]
fn should_or_a_h() {
    let mut cpu = Cpu::new(Registers::new(), TestBus::new());
    cpu.registers.a = 0xAA;
    cpu.registers.h = 0x55;
    cpu.bus.write8(0, 2 << 6 | 6 << 3 | 4);
    cpu.step();
    assert_eq!(cpu.registers.pc, 1);
    assert_eq!(cpu.registers.r, 1);
    assert_eq!(cpu.registers.a, 0xFF);
    assert!(!bit_is_set(cpu.registers.f, flags::HALF_CARRY));
}

#[test]
fn should_or_a_l() {
    let mut cpu = Cpu::new(Registers::new(), TestBus::new());
    cpu.registers.a = 0xAA;
    cpu.registers.l = 0x55;
    cpu.bus.write8(0, 2 << 6 | 6 << 3 | 5);
    cpu.step();
    assert_eq!(cpu.registers.pc, 1);
    assert_eq!(cpu.registers.r, 1);
    assert_eq!(cpu.registers.a, 0xFF);
    assert!(!bit_is_set(cpu.registers.f, flags::HALF_CARRY));
}

#[test]
fn should_or_a_hl() {
    let mut cpu = Cpu::new(Registers::new(), TestBus::new());
    cpu.registers.a = 0xAA;
    cpu.registers.set_hl(0xBEEF);
    cpu.bus.write8(0, 2 << 6 | 6 << 3 | 6);
    cpu.bus.write8(0xBEEF, 0x55);
    cpu.step();
    assert_eq!(cpu.registers.pc, 1);
    assert_eq!(cpu.registers.r, 1);
    assert_eq!(cpu.registers.a, 0xFF);
    assert!(!bit_is_set(cpu.registers.f, flags::HALF_CARRY));
}

#[test]
fn should_xor_a_a() {
    let mut cpu = Cpu::new(Registers::new(), TestBus::new());
    cpu.registers.a = 0xAA;
    cpu.bus.write8(0, 2 << 6 | 5 << 3 | 7);
    cpu.bus.write8(1, 1);
    cpu.step();
    assert_eq!(cpu.registers.pc, 1);
    assert_eq!(cpu.registers.r, 1);
    assert_eq!(cpu.registers.a, 0);
    assert!(!bit_is_set(cpu.registers.f, flags::HALF_CARRY));
}

#[test]
fn should_xor_a_b() {
    let mut cpu = Cpu::new(Registers::new(), TestBus::new());
    cpu.registers.a = 0xAA;
    cpu.registers.b = 0xFF;
    cpu.bus.write8(0, 2 << 6 | 5 << 3);
    cpu.bus.write8(1, 1);
    cpu.step();
    assert_eq!(cpu.registers.pc, 1);
    assert_eq!(cpu.registers.r, 1);
    assert_eq!(cpu.registers.a, 0x55);
    assert!(!bit_is_set(cpu.registers.f, flags::HALF_CARRY));
}

#[test]
fn should_xor_a_c() {
    let mut cpu = Cpu::new(Registers::new(), TestBus::new());
    cpu.registers.a = 0xAA;
    cpu.registers.c = 0xFF;
    cpu.bus.write8(0, 2 << 6 | 5 << 3 | 1);
    cpu.bus.write8(1, 1);
    cpu.step();
    assert_eq!(cpu.registers.pc, 1);
    assert_eq!(cpu.registers.r, 1);
    assert_eq!(cpu.registers.a, 0x55);
    assert!(!bit_is_set(cpu.registers.f, flags::HALF_CARRY));
}

#[test]
fn should_xor_a_d() {
    let mut cpu = Cpu::new(Registers::new(), TestBus::new());
    cpu.registers.a = 0xAA;
    cpu.registers.d = 0xFF;
    cpu.bus.write8(0, 2 << 6 | 5 << 3 | 2);
    cpu.step();
    assert_eq!(cpu.registers.pc, 1);
    assert_eq!(cpu.registers.r, 1);
    assert_eq!(cpu.registers.a, 0x55);
    assert!(!bit_is_set(cpu.registers.f, flags::HALF_CARRY));
}

#[test]
fn should_xor_a_e() {
    let mut cpu = Cpu::new(Registers::new(), TestBus::new());
    cpu.registers.a = 0xAA;
    cpu.registers.e = 0xFF;
    cpu.bus.write8(0, 2 << 6 | 5 << 3 | 3);
    cpu.step();
    assert_eq!(cpu.registers.pc, 1);
    assert_eq!(cpu.registers.r, 1);
    assert_eq!(cpu.registers.a, 0x55);
    assert!(!bit_is_set(cpu.registers.f, flags::HALF_CARRY));
}

#[test]
fn should_xor_a_h() {
    let mut cpu = Cpu::new(Registers::new(), TestBus::new());
    cpu.registers.a = 0xAA;
    cpu.registers.h = 0xFF;
    cpu.bus.write8(0, 2 << 6 | 5 << 3 | 4);
    cpu.step();
    assert_eq!(cpu.registers.pc, 1);
    assert_eq!(cpu.registers.r, 1);
    assert_eq!(cpu.registers.a, 0x55);
    assert!(!bit_is_set(cpu.registers.f, flags::HALF_CARRY));
}

#[test]
fn should_xor_a_l() {
    let mut cpu = Cpu::new(Registers::new(), TestBus::new());
    cpu.registers.a = 0xAA;
    cpu.registers.l = 0xFF;
    cpu.bus.write8(0, 2 << 6 | 5 << 3 | 5);
    cpu.step();
    assert_eq!(cpu.registers.pc, 1);
    assert_eq!(cpu.registers.r, 1);
    assert_eq!(cpu.registers.a, 0x55);
    assert!(!bit_is_set(cpu.registers.f, flags::HALF_CARRY));
}

#[test]
fn should_xor_a_hl() {
    let mut cpu = Cpu::new(Registers::new(), TestBus::new());
    cpu.registers.a = 0xAA;
    cpu.registers.set_hl(0xBEEF);
    cpu.bus.write8(0, 2 << 6 | 5 << 3 | 6);
    cpu.bus.write8(0xBEEF, 0xFF);
    cpu.step();
    assert_eq!(cpu.registers.pc, 1);
    assert_eq!(cpu.registers.r, 1);
    assert_eq!(cpu.registers.a, 0x55);
    assert!(!bit_is_set(cpu.registers.f, flags::HALF_CARRY));
}

#[test]
fn should_and_a_n() {
    let mut cpu = Cpu::new(Registers::new(), TestBus::new());
    cpu.registers.a = 0xAA;
    cpu.bus.write8(0, 3 << 6 | 4 << 3 | 6);
    cpu.bus.write8(1, 0x0F);
    cpu.step();
    assert_eq!(cpu.registers.pc, 2);
    assert_eq!(cpu.registers.r, 1);
    assert_eq!(cpu.registers.a, 0x0A);
    assert!(bit_is_set(cpu.registers.f, flags::HALF_CARRY));
}

#[test]
fn should_or_a_n() {
    let mut cpu = Cpu::new(Registers::new(), TestBus::new());
    cpu.registers.a = 0xAA;
    cpu.bus.write8(0, 3 << 6 | 6 << 3 | 6);
    cpu.bus.write8(1, 0x55);
    cpu.step();
    assert_eq!(cpu.registers.pc, 2);
    assert_eq!(cpu.registers.r, 1);
    assert_eq!(cpu.registers.a, 0xFF);
    assert!(!bit_is_set(cpu.registers.f, flags::HALF_CARRY));
}

#[test]
fn should_xor_a_n() {
    let mut cpu = Cpu::new(Registers::new(), TestBus::new());
    cpu.registers.a = 0xAA;
    cpu.bus.write8(0, 3 << 6 | 5 << 3 | 6);
    cpu.bus.write8(1, 0xFF);
    cpu.step();
    assert_eq!(cpu.registers.pc, 2);
    assert_eq!(cpu.registers.r, 1);
    assert_eq!(cpu.registers.a, 0x55);
    assert!(!bit_is_set(cpu.registers.f, flags::HALF_CARRY));
}

#[test]
fn should_add_hl_bc() {
    let mut cpu = Cpu::new(Registers::new(), TestBus::new());
    cpu.registers.set_hl(0x5F78);
    cpu.registers.set_bc(0x5F77);
    cpu.bus.write8(0, 1 << 3 | 1);

    cpu.step();
    assert_eq!(cpu.registers.pc, 1);
    assert_eq!(cpu.registers.r, 1);
    assert_eq!(cpu.registers.hl(), 0xBEEF);
}

#[test]
fn should_add_hl_de() {
    let mut cpu = Cpu::new(Registers::new(), TestBus::new());
    cpu.registers.set_hl(0x5F78);
    cpu.registers.set_de(0x5F77);
    cpu.bus.write8(0, 3 << 3 | 1);

    cpu.step();
    assert_eq!(cpu.registers.pc, 1);
    assert_eq!(cpu.registers.r, 1);
    assert_eq!(cpu.registers.hl(), 0xBEEF);
}

#[test]
fn should_add_hl_hl() {
    let mut cpu = Cpu::new(Registers::new(), TestBus::new());
    cpu.registers.set_hl(0x657F);
    cpu.bus.write8(0, 5 << 3 | 1);

    cpu.step();
    assert_eq!(cpu.registers.pc, 1);
    assert_eq!(cpu.registers.r, 1);
    assert_eq!(cpu.registers.hl(), 0xCAFE);
}

#[test]
fn should_add_hl_sp() {
    let mut cpu = Cpu::new(Registers::new(), TestBus::new());
    cpu.registers.set_hl(0x5F78);
    cpu.registers.sp = 0x5F77;
    cpu.bus.write8(0, 7 << 3 | 1);

    cpu.step();
    assert_eq!(cpu.registers.pc, 1);
    assert_eq!(cpu.registers.r, 1);
    assert_eq!(cpu.registers.hl(), 0xBEEF);
}

#[test]
fn should_inc_bc() {
    let mut cpu = Cpu::new(Registers::new(), TestBus::new());
    cpu.registers.set_bc(1);
    cpu.bus.write8(0, 3);

    cpu.step();
    assert_eq!(cpu.registers.pc, 1);
    assert_eq!(cpu.registers.bc(), 2);
}

#[test]
fn should_inc_de() {
    let mut cpu = Cpu::new(Registers::new(), TestBus::new());
    cpu.registers.set_de(1);
    cpu.bus.write8(0, 2 << 3 | 3);

    cpu.step();
    assert_eq!(cpu.registers.pc, 1);
    assert_eq!(cpu.registers.de(), 2);
}

#[test]
fn should_inc_hl_direct() {
    let mut cpu = Cpu::new(Registers::new(), TestBus::new());
    cpu.registers.set_hl(1);
    cpu.bus.write8(0, 4 << 3 | 3);

    cpu.step();
    assert_eq!(cpu.registers.pc, 1);
    assert_eq!(cpu.registers.hl(), 2);
}

#[test]
fn should_inc_sp() {
    let mut cpu = Cpu::new(Registers::new(), TestBus::new());
    cpu.registers.sp = 1;
    cpu.bus.write8(0, 6 << 3 | 3);

    cpu.step();
    assert_eq!(cpu.registers.pc, 1);
    assert_eq!(cpu.registers.sp, 2);
}

#[test]
fn should_dec_bc() {
    let mut cpu = Cpu::new(Registers::new(), TestBus::new());
    cpu.registers.set_bc(1);
    cpu.bus.write8(0, 1 << 3 | 3);

    cpu.step();
    assert_eq!(cpu.registers.pc, 1);
    assert_eq!(cpu.registers.bc(), 0);
}

#[test]
fn should_dec_de() {
    let mut cpu = Cpu::new(Registers::new(), TestBus::new());
    cpu.registers.set_de(1);
    cpu.bus.write8(0, 3 << 3 | 3);

    cpu.step();
    assert_eq!(cpu.registers.pc, 1);
    assert_eq!(cpu.registers.de(), 0);
}

#[test]
fn should_dec_hl_direct() {
    let mut cpu = Cpu::new(Registers::new(), TestBus::new());
    cpu.registers.set_hl(1);
    cpu.bus.write8(0, 5 << 3 | 3);

    cpu.step();
    assert_eq!(cpu.registers.pc, 1);
    assert_eq!(cpu.registers.hl(), 0);
}

#[test]
fn should_dec_sp() {
    let mut cpu = Cpu::new(Registers::new(), TestBus::new());
    cpu.registers.sp = 1;
    cpu.bus.write8(0, 7 << 3 | 3);

    cpu.step();
    assert_eq!(cpu.registers.pc, 1);
    assert_eq!(cpu.registers.sp, 0);
}

#[test]
fn should_jp_nn() {
    let mut cpu = Cpu::new(Registers::new(), TestBus::new());
    cpu.bus.write8(0, 3 << 6 | 3);
    cpu.bus.write8(1, 0xEF);
    cpu.bus.write8(2, 0xBE);

    cpu.step();
    assert_eq!(cpu.registers.pc, 0xBEEF);
    assert_eq!(cpu.registers.r, 1);
}

#[test]
fn should_jr_e_forward() {
    let mut cpu = Cpu::new(Registers::new(), TestBus::new());
    cpu.bus.write8(0, 3 << 3);
    cpu.bus.write8(1, 40);

    cpu.step();
    assert_eq!(cpu.registers.pc, 42);
    assert_eq!(cpu.registers.r, 1);
}

#[test]
fn should_jr_e_backwards() {
    let mut cpu = Cpu::new(Registers::new(), TestBus::new());
    cpu.bus.write8(0, 3 << 3);
    cpu.bus.write8(1, 0xFD);

    cpu.step();
    assert_eq!(cpu.registers.pc, 0xFFFF);
    assert_eq!(cpu.registers.r, 1);
}

#[test]
fn should_jp_hl() {
    let mut cpu = Cpu::new(Registers::new(), TestBus::new());
    cpu.registers.set_hl(0xBEEF);
    cpu.bus.write8(0, 3 << 6 | 5 << 3 | 1);

    cpu.step();
    assert_eq!(cpu.registers.pc, 0xBEEF);
    assert_eq!(cpu.registers.r, 1);
}

#[test]
fn should_jp_z_n_if_z_set() {
    let mut cpu = Cpu::new(Registers::new(), TestBus::new());
    cpu.bus.write8(0, 5 << 3);
    cpu.bus.write8(1, 0xFD);
    cpu.registers.f = set_bit(cpu.registers.f, flags::ZERO, true);

    cpu.step();
    assert_eq!(cpu.registers.pc, 0xFFFF);
    assert_eq!(cpu.registers.r, 1);
}

#[test]
fn should_not_jp_z_n_if_z_unset() {
    let mut cpu = Cpu::new(Registers::new(), TestBus::new());
    cpu.bus.write8(0, 5 << 3);
    cpu.bus.write8(1, 0xFD);
    cpu.registers.f = set_bit(cpu.registers.f, flags::ZERO, false);

    cpu.step();
    assert_eq!(cpu.registers.pc, 2);
    assert_eq!(cpu.registers.r, 1);
}

#[test]
fn should_not_jp_nz_n_if_z_set() {
    let mut cpu = Cpu::new(Registers::new(), TestBus::new());
    cpu.bus.write8(0, 4 << 3);
    cpu.bus.write8(1, 0xFD);
    cpu.registers.f = set_bit(cpu.registers.f, flags::ZERO, true);

    cpu.step();
    assert_eq!(cpu.registers.pc, 2);
    assert_eq!(cpu.registers.r, 1);
}

#[test]
fn should_jp_nz_n_if_z_unset() {
    let mut cpu = Cpu::new(Registers::new(), TestBus::new());
    cpu.bus.write8(0, 4 << 3);
    cpu.bus.write8(1, 0xFD);
    cpu.registers.f = set_bit(cpu.registers.f, flags::ZERO, false);

    cpu.step();
    assert_eq!(cpu.registers.pc, 0xFFFF);
    assert_eq!(cpu.registers.r, 1);
}

#[test]
fn should_jp_c_n_if_c_set() {
    let mut cpu = Cpu::new(Registers::new(), TestBus::new());
    cpu.bus.write8(0, 7 << 3);
    cpu.bus.write8(1, 0xFD);
    cpu.registers.f = set_bit(cpu.registers.f, flags::CARRY, true);

    cpu.step();
    assert_eq!(cpu.registers.pc, 0xFFFF);
    assert_eq!(cpu.registers.r, 1);
}

#[test]
fn should_not_jp_c_n_if_c_unset() {
    let mut cpu = Cpu::new(Registers::new(), TestBus::new());
    cpu.bus.write8(0, 7 << 3);
    cpu.bus.write8(1, 0xFD);
    cpu.registers.f = set_bit(cpu.registers.f, flags::CARRY, false);

    cpu.step();
    assert_eq!(cpu.registers.pc, 2);
    assert_eq!(cpu.registers.r, 1);
}

#[test]
fn should_not_jp_nc_n_if_c_set() {
    let mut cpu = Cpu::new(Registers::new(), TestBus::new());
    cpu.bus.write8(0, 6 << 3);
    cpu.bus.write8(1, 0xFD);
    cpu.registers.f = set_bit(cpu.registers.f, flags::CARRY, true);

    cpu.step();
    assert_eq!(cpu.registers.pc, 2);
    assert_eq!(cpu.registers.r, 1);
}

#[test]
fn should_jp_nc_n_if_c_unset() {
    let mut cpu = Cpu::new(Registers::new(), TestBus::new());
    cpu.bus.write8(0, 6 << 3);
    cpu.bus.write8(1, 0xFD);
    cpu.registers.f = set_bit(cpu.registers.f, flags::CARRY, false);

    cpu.step();
    assert_eq!(cpu.registers.pc, 0xFFFF);
    assert_eq!(cpu.registers.r, 1);
}

#[test]
fn should_jp_nz_nn_if_z_unset() {
    let mut cpu = Cpu::new(Registers::new(), TestBus::new());
    cpu.bus.write8(0, 3 << 6 | 2);
    cpu.bus.write8(1, 0xEF);
    cpu.bus.write8(2, 0xBE);
    cpu.registers.f = set_bit(cpu.registers.f, flags::ZERO, false);

    cpu.step();
    assert_eq!(cpu.registers.pc, 0xBEEF);
    assert_eq!(cpu.registers.r, 1);
}

#[test]
fn should_not_jp_nz_nn_if_z_set() {
    let mut cpu = Cpu::new(Registers::new(), TestBus::new());
    cpu.bus.write8(0, 3 << 6 | 2);
    cpu.bus.write8(1, 0xEF);
    cpu.bus.write8(2, 0xBE);
    cpu.registers.f = set_bit(cpu.registers.f, flags::ZERO, true);

    cpu.step();
    assert_eq!(cpu.registers.pc, 3);
    assert_eq!(cpu.registers.r, 1);
}

#[test]
fn should_not_jp_z_nn_if_z_unset() {
    let mut cpu = Cpu::new(Registers::new(), TestBus::new());
    cpu.bus.write8(0, 3 << 6 | 1 << 3 | 2);
    cpu.bus.write8(1, 0xEF);
    cpu.bus.write8(2, 0xBE);
    cpu.registers.f = set_bit(cpu.registers.f, flags::ZERO, false);

    cpu.step();
    assert_eq!(cpu.registers.pc, 3);
    assert_eq!(cpu.registers.r, 1);
}

#[test]
fn should_jp_z_nn_if_z_set() {
    let mut cpu = Cpu::new(Registers::new(), TestBus::new());
    cpu.bus.write8(0, 3 << 6 | 1 | 2);
    cpu.bus.write8(1, 0xEF);
    cpu.bus.write8(2, 0xBE);
    cpu.registers.f = set_bit(cpu.registers.f, flags::ZERO, true);

    cpu.step();
    assert_eq!(cpu.registers.pc, 0xBEEF);
    assert_eq!(cpu.registers.r, 1);
}

#[test]
fn should_jp_nc_nn_if_c_unset() {
    let mut cpu = Cpu::new(Registers::new(), TestBus::new());
    cpu.bus.write8(0, 3 << 6 | 2 << 3 | 2);
    cpu.bus.write8(1, 0xEF);
    cpu.bus.write8(2, 0xBE);
    cpu.registers.f = set_bit(cpu.registers.f, flags::CARRY, false);

    cpu.step();
    assert_eq!(cpu.registers.pc, 0xBEEF);
    assert_eq!(cpu.registers.r, 1);
}

#[test]
fn should_not_jp_nc_nn_if_c_set() {
    let mut cpu = Cpu::new(Registers::new(), TestBus::new());
    cpu.bus.write8(0, 3 << 6 | 2 << 3 | 2);
    cpu.bus.write8(1, 0xEF);
    cpu.bus.write8(2, 0xBE);
    cpu.registers.f = set_bit(cpu.registers.f, flags::CARRY, true);

    cpu.step();
    assert_eq!(cpu.registers.pc, 3);
    assert_eq!(cpu.registers.r, 1);
}

#[test]
fn should_not_jp_c_nn_if_c_unset() {
    let mut cpu = Cpu::new(Registers::new(), TestBus::new());
    cpu.bus.write8(0, 3 << 6 | 3 << 3 | 2);
    cpu.bus.write8(1, 0xEF);
    cpu.bus.write8(2, 0xBE);
    cpu.registers.f = set_bit(cpu.registers.f, flags::CARRY, false);

    cpu.step();
    assert_eq!(cpu.registers.pc, 3);
    assert_eq!(cpu.registers.r, 1);
}

#[test]
fn should_jp_c_nn_if_c_set() {
    let mut cpu = Cpu::new(Registers::new(), TestBus::new());
    cpu.bus.write8(0, 3 << 6 | 3 << 3 | 2);
    cpu.bus.write8(1, 0xEF);
    cpu.bus.write8(2, 0xBE);
    cpu.registers.f = set_bit(cpu.registers.f, flags::CARRY, true);

    cpu.step();
    assert_eq!(cpu.registers.pc, 0xBEEF);
    assert_eq!(cpu.registers.r, 1);
}

#[test]
fn should_jp_no_nn_if_o_unset() {
    let mut cpu = Cpu::new(Registers::new(), TestBus::new());
    cpu.bus.write8(0, 3 << 6 | 4 << 3 | 2);
    cpu.bus.write8(1, 0xEF);
    cpu.bus.write8(2, 0xBE);
    cpu.registers.f = set_bit(cpu.registers.f, flags::PARITY_OVERFLOW, false);

    cpu.step();
    assert_eq!(cpu.registers.pc, 0xBEEF);
    assert_eq!(cpu.registers.r, 1);
}

#[test]
fn should_not_jp_no_nn_if_o_set() {
    let mut cpu = Cpu::new(Registers::new(), TestBus::new());
    cpu.bus.write8(0, 3 << 6 | 4 << 3 | 2);
    cpu.bus.write8(1, 0xEF);
    cpu.bus.write8(2, 0xBE);
    cpu.registers.f = set_bit(cpu.registers.f, flags::PARITY_OVERFLOW, true);

    cpu.step();
    assert_eq!(cpu.registers.pc, 3);
    assert_eq!(cpu.registers.r, 1);
}

#[test]
fn should_not_jp_o_nn_if_o_unset() {
    let mut cpu = Cpu::new(Registers::new(), TestBus::new());
    cpu.bus.write8(0, 3 << 6 | 5 << 3 | 2);
    cpu.bus.write8(1, 0xEF);
    cpu.bus.write8(2, 0xBE);
    cpu.registers.f = set_bit(cpu.registers.f, flags::PARITY_OVERFLOW, false);

    cpu.step();
    assert_eq!(cpu.registers.pc, 3);
    assert_eq!(cpu.registers.r, 1);
}

#[test]
fn should_jp_o_nn_if_o_set() {
    let mut cpu = Cpu::new(Registers::new(), TestBus::new());
    cpu.bus.write8(0, 3 << 6 | 5 << 3 | 2);
    cpu.bus.write8(1, 0xEF);
    cpu.bus.write8(2, 0xBE);
    cpu.registers.f = set_bit(cpu.registers.f, flags::PARITY_OVERFLOW, true);

    cpu.step();
    assert_eq!(cpu.registers.pc, 0xBEEF);
    assert_eq!(cpu.registers.r, 1);
}

#[test]
fn should_jp_ns_nn_if_s_unset() {
    let mut cpu = Cpu::new(Registers::new(), TestBus::new());
    cpu.bus.write8(0, 3 << 6 | 6 << 3 | 2);
    cpu.bus.write8(1, 0xEF);
    cpu.bus.write8(2, 0xBE);
    cpu.registers.f = set_bit(cpu.registers.f, flags::SIGN, false);

    cpu.step();
    assert_eq!(cpu.registers.pc, 0xBEEF);
    assert_eq!(cpu.registers.r, 1);
}

#[test]
fn should_not_jp_ns_nn_if_s_set() {
    let mut cpu = Cpu::new(Registers::new(), TestBus::new());
    cpu.bus.write8(0, 3 << 6 | 6 << 3 | 2);
    cpu.bus.write8(1, 0xEF);
    cpu.bus.write8(2, 0xBE);
    cpu.registers.f = set_bit(cpu.registers.f, flags::SIGN, true);

    cpu.step();
    assert_eq!(cpu.registers.pc, 3);
    assert_eq!(cpu.registers.r, 1);
}

#[test]
fn should_not_jp_s_nn_if_s_unset() {
    let mut cpu = Cpu::new(Registers::new(), TestBus::new());
    cpu.bus.write8(0, 3 << 6 | 7 << 3 | 2);
    cpu.bus.write8(1, 0xEF);
    cpu.bus.write8(2, 0xBE);
    cpu.registers.f = set_bit(cpu.registers.f, flags::SIGN, false);

    cpu.step();
    assert_eq!(cpu.registers.pc, 3);
    assert_eq!(cpu.registers.r, 1);
}

#[test]
fn should_jp_s_nn_if_s_set() {
    let mut cpu = Cpu::new(Registers::new(), TestBus::new());
    cpu.bus.write8(0, 3 << 6 | 7 << 3 | 2);
    cpu.bus.write8(1, 0xEF);
    cpu.bus.write8(2, 0xBE);
    cpu.registers.f = set_bit(cpu.registers.f, flags::SIGN, true);

    cpu.step();
    assert_eq!(cpu.registers.pc, 0xBEEF);
    assert_eq!(cpu.registers.r, 1);
}

#[test]
fn should_call_nn() {
    let mut cpu = Cpu::new(Registers::new(), TestBus::new());
    cpu.registers.sp = 0xDEAF;
    cpu.registers.pc = 0xC0DE;
    cpu.bus.write8(0xC0DE, 3 << 6 | 1 << 3 | 5);
    cpu.bus.write8(0xC0DF, 0xEF);
    cpu.bus.write8(0xC0E0, 0xBE);

    cpu.step();
    assert_eq!(cpu.registers.pc, 0xBEEF);
    assert_eq!(cpu.registers.sp, 0xDEAD);

    assert_eq!(cpu.bus.read8(cpu.registers.sp), 0xE1);
    assert_eq!(cpu.bus.read8(cpu.registers.sp + 1), 0xC0);
    assert_eq!(cpu.registers.r, 1);
}

#[test]
fn should_call_nz_nn_when_unset() {
    let mut cpu = Cpu::new(Registers::new(), TestBus::new());
    cpu.registers.sp = 0xDEAF;
    cpu.registers.pc = 0xC0DE;
    cpu.registers.f = set_bit(cpu.registers.f, flags::ZERO, false);
    cpu.bus.write8(0xC0DE, 3 << 6 | 4);
    cpu.bus.write8(0xC0DF, 0xEF);
    cpu.bus.write8(0xC0E0, 0xBE);

    cpu.step();
    assert_eq!(cpu.registers.pc, 0xBEEF);
    assert_eq!(cpu.registers.sp, 0xDEAD);

    assert_eq!(cpu.bus.read8(cpu.registers.sp), 0xE1);
    assert_eq!(cpu.bus.read8(cpu.registers.sp + 1), 0xC0);
    assert_eq!(cpu.registers.r, 1);
}

#[test]
fn should_not_call_nz_nn_when_set() {
    let mut cpu = Cpu::new(Registers::new(), TestBus::new());
    cpu.registers.sp = 0xDEAF;
    cpu.registers.pc = 0xC0DE;
    cpu.registers.f = set_bit(cpu.registers.f, flags::ZERO, true);
    cpu.bus.write8(0xC0DE, 3 << 6 | 4);
    cpu.bus.write8(0xC0DF, 0xEF);
    cpu.bus.write8(0xC0E0, 0xBE);

    cpu.step();
    assert_eq!(cpu.registers.pc, 0xC0E1);
    assert_eq!(cpu.registers.sp, 0xDEAF);
    assert_eq!(cpu.registers.r, 1);
}

#[test]
fn should_not_call_z_nn_when_unset() {
    let mut cpu = Cpu::new(Registers::new(), TestBus::new());
    cpu.registers.sp = 0xDEAF;
    cpu.registers.pc = 0xC0DE;
    cpu.registers.f = set_bit(cpu.registers.f, flags::ZERO, false);
    cpu.bus.write8(0xC0DE, 3 << 6 | 1 << 3 | 4);
    cpu.bus.write8(0xC0DF, 0xEF);
    cpu.bus.write8(0xC0E0, 0xBE);

    cpu.step();
    assert_eq!(cpu.registers.pc, 0xC0E1);
    assert_eq!(cpu.registers.sp, 0xDEAF);
    assert_eq!(cpu.registers.r, 1);
}

#[test]
fn should_call_z_nn_when_set() {
    let mut cpu = Cpu::new(Registers::new(), TestBus::new());
    cpu.registers.sp = 0xDEAF;
    cpu.registers.pc = 0xC0DE;
    cpu.registers.f = set_bit(cpu.registers.f, flags::ZERO, true);
    cpu.bus.write8(0xC0DE, 3 << 6 | 1 << 3 | 4);
    cpu.bus.write8(0xC0DF, 0xEF);
    cpu.bus.write8(0xC0E0, 0xBE);

    cpu.step();
    assert_eq!(cpu.registers.pc, 0xBEEF);
    assert_eq!(cpu.registers.sp, 0xDEAD);

    assert_eq!(cpu.bus.read8(cpu.registers.sp), 0xE1);
    assert_eq!(cpu.bus.read8(cpu.registers.sp + 1), 0xC0);
    assert_eq!(cpu.registers.r, 1);
}

#[test]
fn should_call_nc_nn_when_unset() {
    let mut cpu = Cpu::new(Registers::new(), TestBus::new());
    cpu.registers.sp = 0xDEAF;
    cpu.registers.pc = 0xC0DE;
    cpu.registers.f = set_bit(cpu.registers.f, flags::CARRY, false);
    cpu.bus.write8(0xC0DE, 3 << 6 | 2 << 3 | 4);
    cpu.bus.write8(0xC0DF, 0xEF);
    cpu.bus.write8(0xC0E0, 0xBE);

    cpu.step();
    assert_eq!(cpu.registers.pc, 0xBEEF);
    assert_eq!(cpu.registers.sp, 0xDEAD);

    assert_eq!(cpu.bus.read8(cpu.registers.sp), 0xE1);
    assert_eq!(cpu.bus.read8(cpu.registers.sp + 1), 0xC0);
    assert_eq!(cpu.registers.r, 1);
}

#[test]
fn should_not_call_nc_nn_when_set() {
    let mut cpu = Cpu::new(Registers::new(), TestBus::new());
    cpu.registers.sp = 0xDEAF;
    cpu.registers.pc = 0xC0DE;
    cpu.registers.f = set_bit(cpu.registers.f, flags::CARRY, true);
    cpu.bus.write8(0xC0DE, 3 << 6 | 2 << 3 | 4);
    cpu.bus.write8(0xC0DF, 0xEF);
    cpu.bus.write8(0xC0E0, 0xBE);

    cpu.step();
    assert_eq!(cpu.registers.pc, 0xC0E1);
    assert_eq!(cpu.registers.sp, 0xDEAF);
    assert_eq!(cpu.registers.r, 1);
}

#[test]
fn should_not_call_c_nn_when_unset() {
    let mut cpu = Cpu::new(Registers::new(), TestBus::new());
    cpu.registers.sp = 0xDEAF;
    cpu.registers.pc = 0xC0DE;
    cpu.registers.f = set_bit(cpu.registers.f, flags::CARRY, false);
    cpu.bus.write8(0xC0DE, 3 << 6 | 3 << 3 | 4);
    cpu.bus.write8(0xC0DF, 0xEF);
    cpu.bus.write8(0xC0E0, 0xBE);

    cpu.step();
    assert_eq!(cpu.registers.pc, 0xC0E1);
    assert_eq!(cpu.registers.sp, 0xDEAF);
    assert_eq!(cpu.registers.r, 1);
}

#[test]
fn should_call_c_nn_when_set() {
    let mut cpu = Cpu::new(Registers::new(), TestBus::new());
    cpu.registers.sp = 0xDEAF;
    cpu.registers.pc = 0xC0DE;
    cpu.registers.f = set_bit(cpu.registers.f, flags::CARRY, true);
    cpu.bus.write8(0xC0DE, 3 << 6 | 3 << 3 | 4);
    cpu.bus.write8(0xC0DF, 0xEF);
    cpu.bus.write8(0xC0E0, 0xBE);

    cpu.step();
    assert_eq!(cpu.registers.pc, 0xBEEF);
    assert_eq!(cpu.registers.sp, 0xDEAD);

    assert_eq!(cpu.bus.read8(cpu.registers.sp), 0xE1);
    assert_eq!(cpu.bus.read8(cpu.registers.sp + 1), 0xC0);
    assert_eq!(cpu.registers.r, 1);
}

#[test]
fn should_call_np_nn_when_unset() {
    let mut cpu = Cpu::new(Registers::new(), TestBus::new());
    cpu.registers.sp = 0xDEAF;
    cpu.registers.pc = 0xC0DE;
    cpu.registers.f = set_bit(cpu.registers.f, flags::PARITY_OVERFLOW, false);
    cpu.bus.write8(0xC0DE, 3 << 6 | 4 << 3 | 4);
    cpu.bus.write8(0xC0DF, 0xEF);
    cpu.bus.write8(0xC0E0, 0xBE);

    cpu.step();
    assert_eq!(cpu.registers.pc, 0xBEEF);
    assert_eq!(cpu.registers.sp, 0xDEAD);

    assert_eq!(cpu.bus.read8(cpu.registers.sp), 0xE1);
    assert_eq!(cpu.bus.read8(cpu.registers.sp + 1), 0xC0);
    assert_eq!(cpu.registers.r, 1);
}

#[test]
fn should_not_call_np_nn_when_set() {
    let mut cpu = Cpu::new(Registers::new(), TestBus::new());
    cpu.registers.sp = 0xDEAF;
    cpu.registers.pc = 0xC0DE;
    cpu.registers.f = set_bit(cpu.registers.f, flags::PARITY_OVERFLOW, true);
    cpu.bus.write8(0xC0DE, 3 << 6 | 4 << 3 | 4);
    cpu.bus.write8(0xC0DF, 0xEF);
    cpu.bus.write8(0xC0E0, 0xBE);

    cpu.step();
    assert_eq!(cpu.registers.pc, 0xC0E1);
    assert_eq!(cpu.registers.sp, 0xDEAF);
    assert_eq!(cpu.registers.r, 1);
}

#[test]
fn should_not_call_p_nn_when_unset() {
    let mut cpu = Cpu::new(Registers::new(), TestBus::new());
    cpu.registers.sp = 0xDEAF;
    cpu.registers.pc = 0xC0DE;
    cpu.registers.f = set_bit(cpu.registers.f, flags::PARITY_OVERFLOW, false);
    cpu.bus.write8(0xC0DE, 3 << 6 | 5 << 3 | 4);
    cpu.bus.write8(0xC0DF, 0xEF);
    cpu.bus.write8(0xC0E0, 0xBE);

    cpu.step();
    assert_eq!(cpu.registers.pc, 0xC0E1);
    assert_eq!(cpu.registers.sp, 0xDEAF);
    assert_eq!(cpu.registers.r, 1);
}

#[test]
fn should_call_p_nn_when_set() {
    let mut cpu = Cpu::new(Registers::new(), TestBus::new());
    cpu.registers.sp = 0xDEAF;
    cpu.registers.pc = 0xC0DE;
    cpu.registers.f = set_bit(cpu.registers.f, flags::PARITY_OVERFLOW, true);
    cpu.bus.write8(0xC0DE, 3 << 6 | 5 << 3 | 4);
    cpu.bus.write8(0xC0DF, 0xEF);
    cpu.bus.write8(0xC0E0, 0xBE);

    cpu.step();
    assert_eq!(cpu.registers.pc, 0xBEEF);
    assert_eq!(cpu.registers.sp, 0xDEAD);

    assert_eq!(cpu.bus.read8(cpu.registers.sp), 0xE1);
    assert_eq!(cpu.bus.read8(cpu.registers.sp + 1), 0xC0);
    assert_eq!(cpu.registers.r, 1);
}

#[test]
fn should_call_ns_nn_when_unset() {
    let mut cpu = Cpu::new(Registers::new(), TestBus::new());
    cpu.registers.sp = 0xDEAF;
    cpu.registers.pc = 0xC0DE;
    cpu.registers.f = set_bit(cpu.registers.f, flags::SIGN, false);
    cpu.bus.write8(0xC0DE, 3 << 6 | 6 << 3 | 4);
    cpu.bus.write8(0xC0DF, 0xEF);
    cpu.bus.write8(0xC0E0, 0xBE);

    cpu.step();
    assert_eq!(cpu.registers.pc, 0xBEEF);
    assert_eq!(cpu.registers.sp, 0xDEAD);

    assert_eq!(cpu.bus.read8(cpu.registers.sp), 0xE1);
    assert_eq!(cpu.bus.read8(cpu.registers.sp + 1), 0xC0);
    assert_eq!(cpu.registers.r, 1);
}

#[test]
fn should_not_call_ns_nn_when_set() {
    let mut cpu = Cpu::new(Registers::new(), TestBus::new());
    cpu.registers.sp = 0xDEAF;
    cpu.registers.pc = 0xC0DE;
    cpu.registers.f = set_bit(cpu.registers.f, flags::SIGN, true);
    cpu.bus.write8(0xC0DE, 3 << 6 | 6 << 3 | 4);
    cpu.bus.write8(0xC0DF, 0xEF);
    cpu.bus.write8(0xC0E0, 0xBE);

    cpu.step();
    assert_eq!(cpu.registers.pc, 0xC0E1);
    assert_eq!(cpu.registers.sp, 0xDEAF);
    assert_eq!(cpu.registers.r, 1);
}

#[test]
fn should_not_call_s_nn_when_unset() {
    let mut cpu = Cpu::new(Registers::new(), TestBus::new());
    cpu.registers.sp = 0xDEAF;
    cpu.registers.pc = 0xC0DE;
    cpu.registers.f = set_bit(cpu.registers.f, flags::SIGN, false);
    cpu.bus.write8(0xC0DE, 3 << 6 | 7 << 3 | 4);
    cpu.bus.write8(0xC0DF, 0xEF);
    cpu.bus.write8(0xC0E0, 0xBE);

    cpu.step();
    assert_eq!(cpu.registers.pc, 0xC0E1);
    assert_eq!(cpu.registers.sp, 0xDEAF);
    assert_eq!(cpu.registers.r, 1);
}

#[test]
fn should_call_s_nn_when_set() {
    let mut cpu = Cpu::new(Registers::new(), TestBus::new());
    cpu.registers.sp = 0xDEAF;
    cpu.registers.pc = 0xC0DE;
    cpu.registers.f = set_bit(cpu.registers.f, flags::SIGN, true);
    cpu.bus.write8(0xC0DE, 3 << 6 | 7 << 3 | 4);
    cpu.bus.write8(0xC0DF, 0xEF);
    cpu.bus.write8(0xC0E0, 0xBE);

    cpu.step();
    assert_eq!(cpu.registers.pc, 0xBEEF);
    assert_eq!(cpu.registers.sp, 0xDEAD);

    assert_eq!(cpu.bus.read8(cpu.registers.sp), 0xE1);
    assert_eq!(cpu.bus.read8(cpu.registers.sp + 1), 0xC0);
    assert_eq!(cpu.registers.r, 1);
}

#[test]
fn should_ret() {
    let mut cpu = Cpu::new(Registers::new(), TestBus::new());
    cpu.registers.sp = 0xDEAB;
    cpu.registers.pc = 0xC0DE;
    cpu.bus.write8(0xC0DE, 3 << 6 | 1 << 3 | 1);
    cpu.bus.write8(cpu.registers.sp, 0xEF);
    cpu.bus.write8(cpu.registers.sp + 1, 0xBE);

    cpu.step();
    assert_eq!(cpu.registers.pc, 0xBEEF);
    assert_eq!(cpu.registers.sp, 0xDEAD);

    assert_eq!(cpu.registers.r, 1);
}

#[test]
fn should_ret_c_nz_when_unset() {
    let mut cpu = Cpu::new(Registers::new(), TestBus::new());
    cpu.registers.sp = 0xDEAB;
    cpu.registers.pc = 0xC0DE;
    cpu.registers.f = set_bit(cpu.registers.f, flags::ZERO, false);
    cpu.bus.write8(0xC0DE, 3 << 6);
    cpu.bus.write8(cpu.registers.sp, 0xEF);
    cpu.bus.write8(cpu.registers.sp + 1, 0xBE);

    cpu.step();
    assert_eq!(cpu.registers.pc, 0xBEEF);
    assert_eq!(cpu.registers.sp, 0xDEAD);

    assert_eq!(cpu.registers.r, 1);
}

#[test]
fn should_not_ret_c_nz_when_set() {
    let mut cpu = Cpu::new(Registers::new(), TestBus::new());
    cpu.registers.sp = 0xDEAB;
    cpu.registers.pc = 0xC0DE;
    cpu.registers.f = set_bit(cpu.registers.f, flags::ZERO, true);
    cpu.bus.write8(0xC0DE, 3 << 6);
    cpu.bus.write8(cpu.registers.sp, 0xEF);
    cpu.bus.write8(cpu.registers.sp + 1, 0xBE);

    cpu.step();
    assert_eq!(cpu.registers.pc, 0xC0DF);
    assert_eq!(cpu.registers.sp, 0xDEAB);

    assert_eq!(cpu.registers.r, 1);
}

#[test]
fn should_not_ret_c_z_when_unset() {
    let mut cpu = Cpu::new(Registers::new(), TestBus::new());
    cpu.registers.sp = 0xDEAB;
    cpu.registers.pc = 0xC0DE;
    cpu.registers.f = set_bit(cpu.registers.f, flags::ZERO, false);
    cpu.bus.write8(0xC0DE, 3 << 6 | 1 << 3);
    cpu.bus.write8(cpu.registers.sp, 0xEF);
    cpu.bus.write8(cpu.registers.sp + 1, 0xBE);

    cpu.step();
    assert_eq!(cpu.registers.pc, 0xC0DF);
    assert_eq!(cpu.registers.sp, 0xDEAB);

    assert_eq!(cpu.registers.r, 1);
}

#[test]
fn should_ret_c_z_when_set() {
    let mut cpu = Cpu::new(Registers::new(), TestBus::new());
    cpu.registers.sp = 0xDEAB;
    cpu.registers.pc = 0xC0DE;
    cpu.registers.f = set_bit(cpu.registers.f, flags::ZERO, true);
    cpu.bus.write8(0xC0DE, 3 << 6 | 1 << 3);
    cpu.bus.write8(cpu.registers.sp, 0xEF);
    cpu.bus.write8(cpu.registers.sp + 1, 0xBE);

    cpu.step();
    assert_eq!(cpu.registers.pc, 0xBEEF);
    assert_eq!(cpu.registers.sp, 0xDEAD);

    assert_eq!(cpu.registers.r, 1);
}

#[test]
fn should_ret_c_nc_when_unset() {
    let mut cpu = Cpu::new(Registers::new(), TestBus::new());
    cpu.registers.sp = 0xDEAB;
    cpu.registers.pc = 0xC0DE;
    cpu.registers.f = set_bit(cpu.registers.f, flags::CARRY, false);
    cpu.bus.write8(0xC0DE, 3 << 6 | 2 << 3);
    cpu.bus.write8(cpu.registers.sp, 0xEF);
    cpu.bus.write8(cpu.registers.sp + 1, 0xBE);

    cpu.step();
    assert_eq!(cpu.registers.pc, 0xBEEF);
    assert_eq!(cpu.registers.sp, 0xDEAD);

    assert_eq!(cpu.registers.r, 1);
}

#[test]
fn should_not_ret_c_nc_when_set() {
    let mut cpu = Cpu::new(Registers::new(), TestBus::new());
    cpu.registers.sp = 0xDEAB;
    cpu.registers.pc = 0xC0DE;
    cpu.registers.f = set_bit(cpu.registers.f, flags::CARRY, true);
    cpu.bus.write8(0xC0DE, 3 << 6 | 2 << 3);
    cpu.bus.write8(cpu.registers.sp, 0xEF);
    cpu.bus.write8(cpu.registers.sp + 1, 0xBE);

    cpu.step();
    assert_eq!(cpu.registers.pc, 0xC0DF);
    assert_eq!(cpu.registers.sp, 0xDEAB);

    assert_eq!(cpu.registers.r, 1);
}

#[test]
fn should_not_ret_c_c_when_unset() {
    let mut cpu = Cpu::new(Registers::new(), TestBus::new());
    cpu.registers.sp = 0xDEAB;
    cpu.registers.pc = 0xC0DE;
    cpu.registers.f = set_bit(cpu.registers.f, flags::CARRY, false);
    cpu.bus.write8(0xC0DE, 3 << 6 | 3 << 3);
    cpu.bus.write8(cpu.registers.sp, 0xEF);
    cpu.bus.write8(cpu.registers.sp + 1, 0xBE);

    cpu.step();
    assert_eq!(cpu.registers.pc, 0xC0DF);
    assert_eq!(cpu.registers.sp, 0xDEAB);

    assert_eq!(cpu.registers.r, 1);
}

#[test]
fn should_ret_c_c_when_set() {
    let mut cpu = Cpu::new(Registers::new(), TestBus::new());
    cpu.registers.sp = 0xDEAB;
    cpu.registers.pc = 0xC0DE;
    cpu.registers.f = set_bit(cpu.registers.f, flags::CARRY, true);
    cpu.bus.write8(0xC0DE, 3 << 6 | 3 << 3);
    cpu.bus.write8(cpu.registers.sp, 0xEF);
    cpu.bus.write8(cpu.registers.sp + 1, 0xBE);

    cpu.step();
    assert_eq!(cpu.registers.pc, 0xBEEF);
    assert_eq!(cpu.registers.sp, 0xDEAD);

    assert_eq!(cpu.registers.r, 1);
}

#[test]
fn should_ret_c_np_when_unset() {
    let mut cpu = Cpu::new(Registers::new(), TestBus::new());
    cpu.registers.sp = 0xDEAB;
    cpu.registers.pc = 0xC0DE;
    cpu.registers.f = set_bit(cpu.registers.f, flags::PARITY_OVERFLOW, false);
    cpu.bus.write8(0xC0DE, 3 << 6 | 4 << 3);
    cpu.bus.write8(cpu.registers.sp, 0xEF);
    cpu.bus.write8(cpu.registers.sp + 1, 0xBE);

    cpu.step();
    assert_eq!(cpu.registers.pc, 0xBEEF);
    assert_eq!(cpu.registers.sp, 0xDEAD);

    assert_eq!(cpu.registers.r, 1);
}

#[test]
fn should_not_ret_c_np_when_set() {
    let mut cpu = Cpu::new(Registers::new(), TestBus::new());
    cpu.registers.sp = 0xDEAB;
    cpu.registers.pc = 0xC0DE;
    cpu.registers.f = set_bit(cpu.registers.f, flags::PARITY_OVERFLOW, true);
    cpu.bus.write8(0xC0DE, 3 << 6 | 4 << 3);
    cpu.bus.write8(cpu.registers.sp, 0xEF);
    cpu.bus.write8(cpu.registers.sp + 1, 0xBE);

    cpu.step();
    assert_eq!(cpu.registers.pc, 0xC0DF);
    assert_eq!(cpu.registers.sp, 0xDEAB);

    assert_eq!(cpu.registers.r, 1);
}

#[test]
fn should_not_ret_c_p_when_unset() {
    let mut cpu = Cpu::new(Registers::new(), TestBus::new());
    cpu.registers.sp = 0xDEAB;
    cpu.registers.pc = 0xC0DE;
    cpu.registers.f = set_bit(cpu.registers.f, flags::PARITY_OVERFLOW, false);
    cpu.bus.write8(0xC0DE, 3 << 6 | 5 << 3);
    cpu.bus.write8(cpu.registers.sp, 0xEF);
    cpu.bus.write8(cpu.registers.sp + 1, 0xBE);

    cpu.step();
    assert_eq!(cpu.registers.pc, 0xC0DF);
    assert_eq!(cpu.registers.sp, 0xDEAB);

    assert_eq!(cpu.registers.r, 1);
}

#[test]
fn should_ret_c_p_when_set() {
    let mut cpu = Cpu::new(Registers::new(), TestBus::new());
    cpu.registers.sp = 0xDEAB;
    cpu.registers.pc = 0xC0DE;
    cpu.registers.f = set_bit(cpu.registers.f, flags::PARITY_OVERFLOW, true);
    cpu.bus.write8(0xC0DE, 3 << 6 | 5 << 3);
    cpu.bus.write8(cpu.registers.sp, 0xEF);
    cpu.bus.write8(cpu.registers.sp + 1, 0xBE);

    cpu.step();
    assert_eq!(cpu.registers.pc, 0xBEEF);
    assert_eq!(cpu.registers.sp, 0xDEAD);

    assert_eq!(cpu.registers.r, 1);
}

#[test]
fn should_ret_c_ns_when_unset() {
    let mut cpu = Cpu::new(Registers::new(), TestBus::new());
    cpu.registers.sp = 0xDEAB;
    cpu.registers.pc = 0xC0DE;
    cpu.registers.f = set_bit(cpu.registers.f, flags::SIGN, false);
    cpu.bus.write8(0xC0DE, 3 << 6 | 6 << 3);
    cpu.bus.write8(cpu.registers.sp, 0xEF);
    cpu.bus.write8(cpu.registers.sp + 1, 0xBE);

    cpu.step();
    assert_eq!(cpu.registers.pc, 0xBEEF);
    assert_eq!(cpu.registers.sp, 0xDEAD);

    assert_eq!(cpu.registers.r, 1);
}

#[test]
fn should_not_ret_c_ns_when_set() {
    let mut cpu = Cpu::new(Registers::new(), TestBus::new());
    cpu.registers.sp = 0xDEAB;
    cpu.registers.pc = 0xC0DE;
    cpu.registers.f = set_bit(cpu.registers.f, flags::SIGN, true);
    cpu.bus.write8(0xC0DE, 3 << 6 | 6 << 3);
    cpu.bus.write8(cpu.registers.sp, 0xEF);
    cpu.bus.write8(cpu.registers.sp + 1, 0xBE);

    cpu.step();
    assert_eq!(cpu.registers.pc, 0xC0DF);
    assert_eq!(cpu.registers.sp, 0xDEAB);

    assert_eq!(cpu.registers.r, 1);
}

#[test]
fn should_not_ret_d_s_when_unset() {
    let mut cpu = Cpu::new(Registers::new(), TestBus::new());
    cpu.registers.sp = 0xDEAB;
    cpu.registers.pc = 0xC0DE;
    cpu.registers.f = set_bit(cpu.registers.f, flags::SIGN, false);
    cpu.bus.write8(0xC0DE, 3 << 6 | 7 << 3);
    cpu.bus.write8(cpu.registers.sp, 0xEF);
    cpu.bus.write8(cpu.registers.sp + 1, 0xBE);

    cpu.step();
    assert_eq!(cpu.registers.pc, 0xC0DF);
    assert_eq!(cpu.registers.sp, 0xDEAB);

    assert_eq!(cpu.registers.r, 1);
}

#[test]
fn should_ret_d_s_when_set() {
    let mut cpu = Cpu::new(Registers::new(), TestBus::new());
    cpu.registers.sp = 0xDEAB;
    cpu.registers.pc = 0xC0DE;
    cpu.registers.f = set_bit(cpu.registers.f, flags::SIGN, true);
    cpu.bus.write8(0xC0DE, 3 << 6 | 7 << 3);
    cpu.bus.write8(cpu.registers.sp, 0xEF);
    cpu.bus.write8(cpu.registers.sp + 1, 0xBE);

    cpu.step();
    assert_eq!(cpu.registers.pc, 0xBEEF);
    assert_eq!(cpu.registers.sp, 0xDEAD);

    assert_eq!(cpu.registers.r, 1);
}

#[test]
fn should_rst_0() {
    let mut cpu = Cpu::new(Registers::new(), TestBus::new());
    cpu.registers.sp = 0xDEAF;
    cpu.registers.pc = 0xC0DE;
    cpu.registers.f = set_bit(cpu.registers.f, flags::SIGN, true);
    cpu.bus.write8(0xC0DE, 3 << 6 | 7);
    cpu.bus.write8(cpu.registers.sp, 0xEF);
    cpu.bus.write8(cpu.registers.sp + 1, 0xBE);

    cpu.step();
    assert_eq!(cpu.registers.pc, 0);
    assert_eq!(cpu.registers.sp, 0xDEAD);
    assert_eq!(cpu.bus.read8(cpu.registers.sp), 0xDF);
    assert_eq!(cpu.bus.read8(cpu.registers.sp + 1), 0xC0);

    assert_eq!(cpu.registers.r, 1);
}

#[test]
fn should_rst_1() {
    let mut cpu = Cpu::new(Registers::new(), TestBus::new());
    cpu.registers.sp = 0xDEAF;
    cpu.registers.pc = 0xC0DE;
    cpu.registers.f = set_bit(cpu.registers.f, flags::SIGN, true);
    cpu.bus.write8(0xC0DE, 3 << 6 | 1 << 3 | 7);
    cpu.bus.write8(cpu.registers.sp, 0xEF);
    cpu.bus.write8(cpu.registers.sp + 1, 0xBE);

    cpu.step();
    assert_eq!(cpu.registers.pc, 0x8);
    assert_eq!(cpu.registers.sp, 0xDEAD);
    assert_eq!(cpu.bus.read8(cpu.registers.sp), 0xDF);
    assert_eq!(cpu.bus.read8(cpu.registers.sp + 1), 0xC0);

    assert_eq!(cpu.registers.r, 1);
}

#[test]
fn should_rst_2() {
    let mut cpu = Cpu::new(Registers::new(), TestBus::new());
    cpu.registers.sp = 0xDEAF;
    cpu.registers.pc = 0xC0DE;
    cpu.registers.f = set_bit(cpu.registers.f, flags::SIGN, true);
    cpu.bus.write8(0xC0DE, 3 << 6 | 2 << 3 | 7);
    cpu.bus.write8(cpu.registers.sp, 0xEF);
    cpu.bus.write8(cpu.registers.sp + 1, 0xBE);

    cpu.step();
    assert_eq!(cpu.registers.pc, 0x10);
    assert_eq!(cpu.registers.sp, 0xDEAD);
    assert_eq!(cpu.bus.read8(cpu.registers.sp), 0xDF);
    assert_eq!(cpu.bus.read8(cpu.registers.sp + 1), 0xC0);

    assert_eq!(cpu.registers.r, 1);
}

#[test]
fn should_rst_3() {
    let mut cpu = Cpu::new(Registers::new(), TestBus::new());
    cpu.registers.sp = 0xDEAF;
    cpu.registers.pc = 0xC0DE;
    cpu.registers.f = set_bit(cpu.registers.f, flags::SIGN, true);
    cpu.bus.write8(0xC0DE, 3 << 6 | 3 << 3 | 7);
    cpu.bus.write8(cpu.registers.sp, 0xEF);
    cpu.bus.write8(cpu.registers.sp + 1, 0xBE);

    cpu.step();
    assert_eq!(cpu.registers.pc, 0x18);
    assert_eq!(cpu.registers.sp, 0xDEAD);
    assert_eq!(cpu.bus.read8(cpu.registers.sp), 0xDF);
    assert_eq!(cpu.bus.read8(cpu.registers.sp + 1), 0xC0);

    assert_eq!(cpu.registers.r, 1);
}

#[test]
fn should_rst_4() {
    let mut cpu = Cpu::new(Registers::new(), TestBus::new());
    cpu.registers.sp = 0xDEAF;
    cpu.registers.pc = 0xC0DE;
    cpu.registers.f = set_bit(cpu.registers.f, flags::SIGN, true);
    cpu.bus.write8(0xC0DE, 3 << 6 | 4 << 3 | 7);
    cpu.bus.write8(cpu.registers.sp, 0xEF);
    cpu.bus.write8(cpu.registers.sp + 1, 0xBE);

    cpu.step();
    assert_eq!(cpu.registers.pc, 0x20);
    assert_eq!(cpu.registers.sp, 0xDEAD);
    assert_eq!(cpu.bus.read8(cpu.registers.sp), 0xDF);
    assert_eq!(cpu.bus.read8(cpu.registers.sp + 1), 0xC0);

    assert_eq!(cpu.registers.r, 1);
}

#[test]
fn should_rst_5() {
    let mut cpu = Cpu::new(Registers::new(), TestBus::new());
    cpu.registers.sp = 0xDEAF;
    cpu.registers.pc = 0xC0DE;
    cpu.registers.f = set_bit(cpu.registers.f, flags::SIGN, true);
    cpu.bus.write8(0xC0DE, 3 << 6 | 5 << 3 | 7);
    cpu.bus.write8(cpu.registers.sp, 0xEF);
    cpu.bus.write8(cpu.registers.sp + 1, 0xBE);

    cpu.step();
    assert_eq!(cpu.registers.pc, 0x28);
    assert_eq!(cpu.registers.sp, 0xDEAD);
    assert_eq!(cpu.bus.read8(cpu.registers.sp), 0xDF);
    assert_eq!(cpu.bus.read8(cpu.registers.sp + 1), 0xC0);

    assert_eq!(cpu.registers.r, 1);
}

#[test]
fn should_rst_6() {
    let mut cpu = Cpu::new(Registers::new(), TestBus::new());
    cpu.registers.sp = 0xDEAF;
    cpu.registers.pc = 0xC0DE;
    cpu.registers.f = set_bit(cpu.registers.f, flags::SIGN, true);
    cpu.bus.write8(0xC0DE, 3 << 6 | 6 << 3 | 7);
    cpu.bus.write8(cpu.registers.sp, 0xEF);
    cpu.bus.write8(cpu.registers.sp + 1, 0xBE);

    cpu.step();
    assert_eq!(cpu.registers.pc, 0x30);
    assert_eq!(cpu.registers.sp, 0xDEAD);
    assert_eq!(cpu.bus.read8(cpu.registers.sp), 0xDF);
    assert_eq!(cpu.bus.read8(cpu.registers.sp + 1), 0xC0);

    assert_eq!(cpu.registers.r, 1);
}

#[test]
fn should_rst_7() {
    let mut cpu = Cpu::new(Registers::new(), TestBus::new());
    cpu.registers.sp = 0xDEAF;
    cpu.registers.pc = 0xC0DE;
    cpu.registers.f = set_bit(cpu.registers.f, flags::SIGN, true);
    cpu.bus.write8(0xC0DE, 3 << 6 | 7 << 3 | 7);
    cpu.bus.write8(cpu.registers.sp, 0xEF);
    cpu.bus.write8(cpu.registers.sp + 1, 0xBE);

    cpu.step();
    assert_eq!(cpu.registers.pc, 0x38);
    assert_eq!(cpu.registers.sp, 0xDEAD);
    assert_eq!(cpu.bus.read8(cpu.registers.sp), 0xDF);
    assert_eq!(cpu.bus.read8(cpu.registers.sp + 1), 0xC0);

    assert_eq!(cpu.registers.r, 1);
}

#[test]
fn should_in_a_n() {
    let mut cpu = Cpu::new(Registers::new(), TestBus::new());
    cpu.registers.a = 0xFF;
    cpu.bus.write_io(1, 123);
    cpu.bus.write8(0, 3 << 6 | 3 << 3 | 3);
    cpu.bus.write8(1, 1);

    cpu.step();
    assert_eq!(cpu.registers.pc, 2);
    assert_eq!(cpu.registers.r, 1);
    assert_eq!(cpu.registers.a, 123);
}

#[test]
fn should_out_n_a() {
    let mut cpu = Cpu::new(Registers::new(), TestBus::new());
    cpu.registers.a = 42;
    cpu.bus.write_io(1, 123);
    cpu.bus.write8(0, 3 << 6 | 2 << 3 | 3);
    cpu.bus.write8(1, 1);

    cpu.step();
    assert_eq!(cpu.registers.pc, 2);
    assert_eq!(cpu.registers.r, 1);
    assert_eq!(cpu.registers.a, 42);
    assert_eq!(cpu.bus.read_io(1), 42);
}

#[test]
fn should_ex_de_hl() {
    let mut cpu = Cpu::new(Registers::new(), TestBus::new());
    cpu.registers.set_de(0xC0DE);
    cpu.registers.set_hl(0xF00D);
    cpu.bus.write8(0, 3 << 6 | 5 << 3 | 3);

    cpu.step();
    assert_eq!(cpu.registers.pc, 1);
    assert_eq!(cpu.registers.r, 1);
    assert_eq!(cpu.registers.de(), 0xF00D);
    assert_eq!(cpu.registers.hl(), 0xC0DE);
}

#[test]
fn should_ex_af_af_alt() {
    let mut cpu = Cpu::new(Registers::new(), TestBus::new());
    cpu.registers.set_af(0xCAFE);
    cpu.registers.set_af_alt(0xD00D);
    cpu.bus.write8(0, 1 << 3);

    cpu.step();
    assert_eq!(cpu.registers.pc, 1);
    assert_eq!(cpu.registers.r, 1);
    assert_eq!(cpu.registers.af(), 0xD00D);
    assert_eq!(cpu.registers.af_alt(), 0xCAFE);
}

#[test]
fn should_exx() {
    let mut cpu = Cpu::new(Registers::new(), TestBus::new());
    cpu.registers.set_bc(0xDEAD);
    cpu.registers.set_de(0xBEEF);
    cpu.registers.set_hl(0xCAFE);

    cpu.registers.set_bc_alt(0xFEED);
    cpu.registers.set_de_alt(0xFACE);
    cpu.registers.set_hl_alt(0xF00D);

    cpu.bus.write8(0, 3 << 6 | 3 << 3 | 1);

    cpu.step();
    assert_eq!(cpu.registers.pc, 1);
    assert_eq!(cpu.registers.r, 1);

    assert_eq!(cpu.registers.bc(), 0xFEED);
    assert_eq!(cpu.registers.de(), 0xFACE);
    assert_eq!(cpu.registers.hl(), 0xF00D);

    assert_eq!(cpu.registers.bc_alt(), 0xDEAD);
    assert_eq!(cpu.registers.de_alt(), 0xBEEF);
    assert_eq!(cpu.registers.hl_alt(), 0xCAFE);
}

#[test]
fn should_ex_sp_hl() {
    let mut cpu = Cpu::new(Registers::new(), TestBus::new());
    cpu.bus.write8(0xC0DE, 0xEF);
    cpu.bus.write8(0xC0DF, 0xBE);
    cpu.registers.sp = 0xC0DE;
    cpu.registers.set_hl(0xADDE);
    cpu.bus.write8(0, 3 << 6 | 4 << 3 | 3);

    cpu.step();

    assert_eq!(cpu.registers.pc, 1);
    assert_eq!(cpu.registers.r, 1);
    assert_eq!(cpu.bus.read8(0xC0DE), 0xDE);
    assert_eq!(cpu.bus.read8(0xC0DF), 0xAD);
    assert_eq!(cpu.registers.hl(), 0xBEEF);
}

#[test]
fn should_rlca() {
    let mut cpu = Cpu::new(Registers::new(), TestBus::new());
    cpu.bus.write8(0, 7);
    cpu.registers.a = 0x80;
    cpu.registers.f = set_bit(cpu.registers.f, flags::CARRY, false);

    cpu.step();

    assert_eq!(cpu.registers.pc, 1);
    assert_eq!(cpu.registers.r, 1);
    assert_eq!(cpu.registers.a, 1);
    assert!(bit_is_set(cpu.registers.f, flags::CARRY));
}

#[test]
fn should_rrca() {
    let mut cpu = Cpu::new(Registers::new(), TestBus::new());
    cpu.bus.write8(0, 1 << 3 | 7);
    cpu.registers.a = 3;
    cpu.registers.f = set_bit(cpu.registers.f, flags::CARRY, false);

    cpu.step();

    assert_eq!(cpu.registers.pc, 1);
    assert_eq!(cpu.registers.r, 1);
    assert_eq!(cpu.registers.a, 0x81);
    assert!(bit_is_set(cpu.registers.f, flags::CARRY));
}

#[test]
fn should_rla() {
    let mut cpu = Cpu::new(Registers::new(), TestBus::new());
    cpu.bus.write8(0, 2 << 3 | 7);
    cpu.registers.a = 1;
    cpu.registers.f = set_bit(cpu.registers.f, flags::CARRY, true);

    cpu.step();

    assert_eq!(cpu.registers.pc, 1);
    assert_eq!(cpu.registers.r, 1);
    assert_eq!(cpu.registers.a, 3);
    assert!(!bit_is_set(cpu.registers.f, flags::CARRY));
}

#[test]
fn should_rra() {
    let mut cpu = Cpu::new(Registers::new(), TestBus::new());
    cpu.bus.write8(0, 3 << 3 | 7);
    cpu.registers.a = 1;
    cpu.registers.f = set_bit(cpu.registers.f, flags::CARRY, true);

    cpu.step();

    assert_eq!(cpu.registers.pc, 1);
    assert_eq!(cpu.registers.r, 1);
    assert_eq!(cpu.registers.a, 0x80);
    assert!(bit_is_set(cpu.registers.f, flags::CARRY));
}

#[test]
fn should_calculate_diff_for_daa() {

    assert_daa_bcd_difference(false, false, 0, 0, 0);
    assert_daa_bcd_difference(false, true, 0, 0, 0x06);
    assert_daa_bcd_difference(false, true, 8, 0xA, 0x06);
    assert_daa_bcd_difference(false, false, 8, 0xA, 0x06);
    assert_daa_bcd_difference(false, false, 0xA, 9, 0x60);
    assert_daa_bcd_difference(true, false, 0, 9, 0x60);
    assert_daa_bcd_difference(true, false, 0x10, 9, 0x60);
    assert_daa_bcd_difference(true, true, 0, 9, 0x66);
    assert_daa_bcd_difference(true, true, 0x10, 9, 0x66);
    assert_daa_bcd_difference(true, false, 0, 0xA, 0x66);
    assert_daa_bcd_difference(true, false, 0xA, 0xA, 0x66);
    assert_daa_bcd_difference(true, true, 0, 0xA, 0x66);
    assert_daa_bcd_difference(true, true, 0xA, 9, 0x66);
    assert_daa_bcd_difference(false, false, 9, 0xA, 0x66);
    assert_daa_bcd_difference(false, true, 9, 0xA, 0x66);
    assert_daa_bcd_difference(false, true, 0xA, 9, 0x66);
}

#[test]
fn should_calculate_bcd_new_half_carry_daa() {

    assert_bcd_new_half_carry(false, false, 9, false);
    assert_bcd_new_half_carry(false, true, 9, false);
    assert_bcd_new_half_carry(false, false, 0xA, true);
    assert_bcd_new_half_carry(false, true, 0xA, false);
    assert_bcd_new_half_carry(false, true, 6, false);
    assert_bcd_new_half_carry(true, true, 0, true);
    assert_bcd_new_half_carry(true, false, 0, false);
    assert_bcd_new_half_carry(true, true, 5, true);
    assert_bcd_new_half_carry(true, true, 6, false);
}

#[test]
fn should_calculate_bcd_bcd_new_carry_daa() {

    assert_bcd_new_carry(false, 0, 0, false);
    assert_bcd_new_carry(false, 8, 0xA, false);
    assert_bcd_new_carry(false, 9, 0xA, true);
    assert_bcd_new_carry(false, 0xA, 9, true);
    assert_bcd_new_carry(true, 0, 0, true);
    assert_bcd_new_carry(true, 0, 0xA, true);
    assert_bcd_new_carry(true, 0xA, 0, true);
    assert_bcd_new_carry(true, 0xA, 0xA, true);
}

#[test]
fn should_daa() {
    let mut cpu = Cpu::new(Registers::new(), TestBus::new());
    cpu.bus.write8(0, 4 << 3 | 7);
    cpu.registers.a = 0x3C;
    cpu.step();

    assert_eq!(cpu.registers.pc, 1);
    assert_eq!(cpu.registers.r, 1);
    assert_eq!(cpu.registers.a, 0x42);
    assert!(!bit_is_set(cpu.registers.f, flags::CARRY));
    assert!(bit_is_set(cpu.registers.f, flags::HALF_CARRY));
    assert!(bit_is_set(cpu.registers.f, flags::PARITY_OVERFLOW));
    assert!(!bit_is_set(cpu.registers.f, flags::ZERO));
    assert!(!bit_is_set(cpu.registers.f, flags::SIGN));
}

#[test]
fn should_daa_for_zero() {
    let mut cpu = Cpu::new(Registers::new(), TestBus::new());
    cpu.bus.write8(0, 4 << 3 | 7);
    cpu.registers.a = 0x0;
    cpu.step();

    assert_eq!(cpu.registers.pc, 1);
    assert_eq!(cpu.registers.r, 1);
    assert_eq!(cpu.registers.a, 0x0);
    assert!(!bit_is_set(cpu.registers.f, flags::CARRY));
    assert!(!bit_is_set(cpu.registers.f, flags::HALF_CARRY));
    assert!(bit_is_set(cpu.registers.f, flags::PARITY_OVERFLOW));
    assert!(bit_is_set(cpu.registers.f, flags::ZERO));
    assert!(!bit_is_set(cpu.registers.f, flags::SIGN));
}

#[test]
fn should_daa_for_negative() {
    let mut cpu = Cpu::new(Registers::new(), TestBus::new());
    cpu.bus.write8(0, 4 << 3 | 7);
    cpu.registers.a = 0x81;
    cpu.step();

    assert_eq!(cpu.registers.pc, 1);
    assert_eq!(cpu.registers.r, 1);
    assert_eq!(cpu.registers.a, 0x81);
    assert!(!bit_is_set(cpu.registers.f, flags::CARRY));
    assert!(!bit_is_set(cpu.registers.f, flags::HALF_CARRY));
    assert!(bit_is_set(cpu.registers.f, flags::PARITY_OVERFLOW));
    assert!(!bit_is_set(cpu.registers.f, flags::ZERO));
    assert!(bit_is_set(cpu.registers.f, flags::SIGN));
}

#[test]
fn should_daa_and_set_carry_flag_after_add() {
    let mut cpu = Cpu::new(Registers::new(), TestBus::new());
    cpu.bus.write8(0, 4 << 3 | 7);
    cpu.registers.a = 0xA1;
    cpu.step();

    assert_eq!(cpu.registers.pc, 1);
    assert_eq!(cpu.registers.r, 1);
    assert_eq!(cpu.registers.a, 1);
    assert!(bit_is_set(cpu.registers.f, flags::CARRY));
    assert!(!bit_is_set(cpu.registers.f, flags::HALF_CARRY));
    assert!(!bit_is_set(cpu.registers.f, flags::PARITY_OVERFLOW));
    assert!(!bit_is_set(cpu.registers.f, flags::ZERO));
    assert!(!bit_is_set(cpu.registers.f, flags::SIGN));
}

#[test]
fn should_daa_and_set_half_carry_flag_after_add() {
    let mut cpu = Cpu::new(Registers::new(), TestBus::new());
    cpu.bus.write8(0, 4 << 3 | 7);
    cpu.registers.a = 0x0A;
    cpu.step();

    assert_eq!(cpu.registers.pc, 1);
    assert_eq!(cpu.registers.r, 1);
    assert_eq!(cpu.registers.a, 0x10);
    assert!(!bit_is_set(cpu.registers.f, flags::CARRY));
    assert!(bit_is_set(cpu.registers.f, flags::HALF_CARRY));
    assert!(!bit_is_set(cpu.registers.f, flags::PARITY_OVERFLOW));
    assert!(!bit_is_set(cpu.registers.f, flags::ZERO));
    assert!(!bit_is_set(cpu.registers.f, flags::SIGN));
}

#[test]
fn should_daa_and_set_carry_flag_after_subtract() {
    let mut cpu = Cpu::new(Registers::new(), TestBus::new());
    cpu.bus.write8(0, 4 << 3 | 7);
    cpu.registers.a = 0xF9;
    cpu.registers.f = set_bit(cpu.registers.f, flags::ADD_SUBTRACT, true);
    cpu.step();

    assert_eq!(cpu.registers.pc, 1);
    assert_eq!(cpu.registers.r, 1);
    assert_eq!(cpu.registers.a, 0x99);
    assert!(bit_is_set(cpu.registers.f, flags::CARRY));
    assert!(!bit_is_set(cpu.registers.f, flags::HALF_CARRY));
    assert!(bit_is_set(cpu.registers.f, flags::PARITY_OVERFLOW));
    assert!(!bit_is_set(cpu.registers.f, flags::ZERO));
    assert!(bit_is_set(cpu.registers.f, flags::SIGN));
}

#[test]
fn should_daa_and_set_half_carry_flag_after_subtract() {
    let mut cpu = Cpu::new(Registers::new(), TestBus::new());
    cpu.bus.write8(0, 4 << 3 | 7);
    cpu.registers.a = 0x13;
    cpu.registers.f = set_bit(set_bit(cpu.registers.f, flags::ADD_SUBTRACT, true), flags::HALF_CARRY, true);
    cpu.step();

    assert_eq!(cpu.registers.pc, 1);
    assert_eq!(cpu.registers.r, 1);
    assert_eq!(cpu.registers.a, 13);
    assert!(!bit_is_set(cpu.registers.f, flags::CARRY));
    assert!(bit_is_set(cpu.registers.f, flags::HALF_CARRY));
    assert!(!bit_is_set(cpu.registers.f, flags::PARITY_OVERFLOW));
    assert!(!bit_is_set(cpu.registers.f, flags::ZERO));
    assert!(!bit_is_set(cpu.registers.f, flags::SIGN));
}

#[test]
fn should_daa_and_unset_half_carry_flag_after_subtract() {
    let mut cpu = Cpu::new(Registers::new(), TestBus::new());
    cpu.bus.write8(0, 4 << 3 | 7);
    cpu.registers.a = 0xC;
    cpu.registers.f = set_bit(set_bit(cpu.registers.f, flags::ADD_SUBTRACT, true), flags::HALF_CARRY, true);
    cpu.step();

    assert_eq!(cpu.registers.pc, 1);
    assert_eq!(cpu.registers.r, 1);
    assert_eq!(cpu.registers.a, 6);
    assert!(!bit_is_set(cpu.registers.f, flags::CARRY));
    assert!(!bit_is_set(cpu.registers.f, flags::HALF_CARRY));
    assert!(bit_is_set(cpu.registers.f, flags::PARITY_OVERFLOW));
    assert!(!bit_is_set(cpu.registers.f, flags::ZERO));
    assert!(!bit_is_set(cpu.registers.f, flags::SIGN));
}

#[test]
fn should_cpl() {
    let mut cpu = Cpu::new(Registers::new(), TestBus::new());
    cpu.bus.write8(0, 5 << 3 | 7);
    cpu.registers.a = 0xAA;
    cpu.step();

    assert_eq!(cpu.registers.pc, 1);
    assert_eq!(cpu.registers.r, 1);
    assert_eq!(cpu.registers.a, 0x55);
    assert!(bit_is_set(cpu.registers.f, flags::ADD_SUBTRACT));
    assert!(bit_is_set(cpu.registers.f, flags::HALF_CARRY));
}

#[test]
fn should_scf() {
    let mut cpu = Cpu::new(Registers::new(), TestBus::new());
    cpu.bus.write8(0, 6 << 3 | 7);
    cpu.step();

    assert_eq!(cpu.registers.pc, 1);
    assert_eq!(cpu.registers.r, 1);
    assert!(!bit_is_set(cpu.registers.f, flags::ADD_SUBTRACT));
    assert!(!bit_is_set(cpu.registers.f, flags::HALF_CARRY));
    assert!(bit_is_set(cpu.registers.f, flags::CARRY));
}

#[test]
fn should_ccf_set_c() {
    let mut cpu = Cpu::new(Registers::new(), TestBus::new());
    cpu.bus.write8(0, 7 << 3 | 7);
    cpu.registers.f = set_bit(cpu.registers.f, flags::HALF_CARRY, true);
    cpu.step();

    assert_eq!(cpu.registers.pc, 1);
    assert_eq!(cpu.registers.r, 1);
    assert!(!bit_is_set(cpu.registers.f, flags::ADD_SUBTRACT));
    assert!(!bit_is_set(cpu.registers.f, flags::HALF_CARRY));
    assert!(bit_is_set(cpu.registers.f, flags::CARRY));
}

#[test]
fn should_ccf_unset_c() {
    let mut cpu = Cpu::new(Registers::new(), TestBus::new());
    cpu.bus.write8(0, 7 << 3 | 7);
    cpu.registers.f = set_bit(cpu.registers.f, flags::CARRY, true);
    cpu.step();

    assert_eq!(cpu.registers.pc, 1);
    assert_eq!(cpu.registers.r, 1);
    assert!(!bit_is_set(cpu.registers.f, flags::ADD_SUBTRACT));
    assert!(bit_is_set(cpu.registers.f, flags::HALF_CARRY));
    assert!(!bit_is_set(cpu.registers.f, flags::CARRY));
}

#[test]
fn should_djnz_if_b_becomes_zero() {
    let mut cpu = Cpu::new(Registers::new(), TestBus::new());
    cpu.registers.b = 1;
    cpu.bus.write8(0, 2 << 3);
    cpu.bus.write8(1, 0x0B);

    cpu.step();

    assert_eq!(cpu.registers.pc, 2);
    assert_eq!(cpu.registers.r, 1);
    assert_eq!(cpu.registers.b, 0);
}

#[test]
fn shoulld_djnz_forward_if_b_becomes_non_zero() {
    let mut cpu = Cpu::new(Registers::new(), TestBus::new());
    cpu.registers.b = 2;
    cpu.bus.write8(0, 2 << 3);
    cpu.bus.write8(1, 0x0B);

    cpu.step();

    assert_eq!(cpu.registers.pc, 0x0D);
    assert_eq!(cpu.registers.r, 1);
    assert_eq!(cpu.registers.b, 1);
}

#[test]
fn shoulld_djnz_backward_if_b_becomes_non_zero() {
    let mut cpu = Cpu::new(Registers::new(), TestBus::new());
    cpu.registers.b = 2;
    cpu.registers.pc = 0xF0;
    cpu.bus.write8(0xF0, 2 << 3);
    cpu.bus.write8(0xF1, 0xF5);

    cpu.step();

    assert_eq!(cpu.registers.pc, 0xE7);
    assert_eq!(cpu.registers.r, 1);
    assert_eq!(cpu.registers.b, 1);
}

fn assert_daa_bcd_difference(
    carry_flag: bool,
    half_cary_flag: bool,
    high_nibble: u8,
    low_nibble: u8,
    expected: u8,
) {
    let mut cpu = Cpu::new(Registers::new(), TestBus::new());
    cpu.registers.a = high_nibble << 4 | low_nibble;
    cpu.registers.f = set_bit(set_bit(cpu.registers.f, flags::CARRY, carry_flag), flags::HALF_CARRY, half_cary_flag);
    assert_eq!(cpu.bcd_difference(), expected)
}

fn assert_bcd_new_half_carry(
    was_subtraction: bool,
    half_cary_flag: bool,
    low_nibble: u8,
    expected: bool,
) {
    let mut cpu = Cpu::new(Registers::new(), TestBus::new());
    cpu.registers.a = low_nibble & 0xF;
    cpu.registers.f = set_bit(set_bit(cpu.registers.f, flags::ADD_SUBTRACT, was_subtraction), flags::HALF_CARRY, half_cary_flag);
    assert_eq!(cpu.bcd_new_half_carry(), expected)
}

fn assert_bcd_new_carry(carry_flag: bool, high_nibble: u8, low_nibble: u8, expected: bool) {
    let mut cpu = Cpu::new(Registers::new(), TestBus::new());
    cpu.registers.a = (high_nibble << 4) | low_nibble;
    cpu.registers.f = set_bit(cpu.registers.f, flags::CARRY, carry_flag);
    assert_eq!(cpu.bcd_new_carry(), expected)
}
