//! The arithmetic and bitwise opcode family, driven through the
//! public dispatcher.

use chip8::cpu::CPU;
use chip8::display::Display;
use chip8::isa::Action;
use chip8::memory::Memory;

fn fresh_cpu() -> CPU {
    CPU::new(Memory::new(), Display::new())
}

/// LD_BYTE into a register through the dispatcher.
fn load(cpu: &mut CPU, x: u8, val: u8) {
    let r = cpu.execute(0x6000, (0x6, x, val >> 4, val & 0xF), 0);
    assert_eq!(r, Ok(Action::Continue));
}

#[test]
fn ld_byte_sets_register() {
    let mut cpu = fresh_cpu();
    load(&mut cpu, 3, 0xAB);
    assert_eq!(cpu.get_reg(3), 0xAB);
}

#[test]
fn add_without_overflow() {
    let mut cpu = fresh_cpu();
    load(&mut cpu, 1, 23);
    load(&mut cpu, 2, 45);
    assert_eq!(cpu.execute(0x8004, (0x8, 1, 2, 4), 0), Ok(Action::Continue));
    assert_eq!(cpu.get_reg(1), 68);
    assert_eq!(cpu.get_reg(0xF), 0);
}

#[test]
fn add_with_overflow_sets_flag() {
    let mut cpu = fresh_cpu();
    load(&mut cpu, 1, 200);
    load(&mut cpu, 2, 100);
    assert_eq!(cpu.execute(0x8004, (0x8, 1, 2, 4), 0), Ok(Action::Continue));
    assert_eq!(cpu.get_reg(1), 44);
    assert_eq!(cpu.get_reg(0xF), 1);
}

#[test]
fn add_boundary_255_plus_1() {
    let mut cpu = fresh_cpu();
    load(&mut cpu, 1, 255);
    load(&mut cpu, 2, 1);
    assert_eq!(cpu.execute(0x8004, (0x8, 1, 2, 4), 0), Ok(Action::Continue));
    assert_eq!(cpu.get_reg(1), 0);
    assert_eq!(cpu.get_reg(0xF), 1);
}

#[test]
fn add_boundary_254_plus_1_no_flag() {
    let mut cpu = fresh_cpu();
    load(&mut cpu, 1, 254);
    load(&mut cpu, 2, 1);
    assert_eq!(cpu.execute(0x8004, (0x8, 1, 2, 4), 0), Ok(Action::Continue));
    assert_eq!(cpu.get_reg(1), 255);
    assert_eq!(cpu.get_reg(0xF), 0);
}

#[test]
fn add_byte_wraps_without_flag() {
    let mut cpu = fresh_cpu();
    load(&mut cpu, 0xF, 9);
    load(&mut cpu, 1, 250);
    // ADD_BYTE V1, 10: wraps to 4 and must leave the flag register alone.
    assert_eq!(cpu.execute(0x7000, (0x7, 1, 0, 0xA), 0), Ok(Action::Continue));
    assert_eq!(cpu.get_reg(1), 4);
    assert_eq!(cpu.get_reg(0xF), 9);
}

#[test]
fn sub_no_borrow_sets_flag() {
    let mut cpu = fresh_cpu();
    load(&mut cpu, 1, 45);
    load(&mut cpu, 2, 23);
    assert_eq!(cpu.execute(0x8005, (0x8, 1, 2, 5), 0), Ok(Action::Continue));
    assert_eq!(cpu.get_reg(1), 22);
    assert_eq!(cpu.get_reg(0xF), 1);
}

#[test]
fn sub_with_borrow_clears_flag() {
    let mut cpu = fresh_cpu();
    load(&mut cpu, 1, 23);
    load(&mut cpu, 2, 45);
    assert_eq!(cpu.execute(0x8005, (0x8, 1, 2, 5), 0), Ok(Action::Continue));
    assert_eq!(cpu.get_reg(1), 234);
    assert_eq!(cpu.get_reg(0xF), 0);
}

#[test]
fn sub_equal_operands_no_borrow() {
    let mut cpu = fresh_cpu();
    load(&mut cpu, 1, 77);
    load(&mut cpu, 2, 77);
    assert_eq!(cpu.execute(0x8005, (0x8, 1, 2, 5), 0), Ok(Action::Continue));
    assert_eq!(cpu.get_reg(1), 0);
    assert_eq!(cpu.get_reg(0xF), 1);
}

#[test]
fn subn_reversed_difference() {
    let mut cpu = fresh_cpu();
    load(&mut cpu, 1, 23);
    load(&mut cpu, 2, 45);
    assert_eq!(cpu.execute(0x8007, (0x8, 1, 2, 7), 0), Ok(Action::Continue));
    assert_eq!(cpu.get_reg(1), 22);
    assert_eq!(cpu.get_reg(0xF), 1);
}

#[test]
fn subn_with_borrow_clears_flag() {
    let mut cpu = fresh_cpu();
    load(&mut cpu, 1, 45);
    load(&mut cpu, 2, 23);
    assert_eq!(cpu.execute(0x8007, (0x8, 1, 2, 7), 0), Ok(Action::Continue));
    assert_eq!(cpu.get_reg(1), 234);
    assert_eq!(cpu.get_reg(0xF), 0);
}

#[test]
fn shr_flag_is_bit_shifted_out() {
    let mut cpu = fresh_cpu();
    load(&mut cpu, 1, 0b0000_1011);
    assert_eq!(cpu.execute(0x8006, (0x8, 1, 0, 6), 0), Ok(Action::Continue));
    assert_eq!(cpu.get_reg(1), 0b0000_0101);
    // The flag is the bit shifted out, not the post-shift low bit (which is 1).
    assert_eq!(cpu.get_reg(0xF), 1);

    load(&mut cpu, 2, 0b0000_0110);
    assert_eq!(cpu.execute(0x8006, (0x8, 2, 0, 6), 0), Ok(Action::Continue));
    assert_eq!(cpu.get_reg(2), 0b0000_0011);
    // Post-shift low bit is 1, yet the flag is the shifted-out 0.
    assert_eq!(cpu.get_reg(0xF), 0);
}

#[test]
fn shl_flag_is_bit_shifted_out() {
    let mut cpu = fresh_cpu();
    load(&mut cpu, 1, 0b1000_0001);
    assert_eq!(cpu.execute(0x800E, (0x8, 1, 0, 0xE), 0), Ok(Action::Continue));
    assert_eq!(cpu.get_reg(1), 0b0000_0010);
    assert_eq!(cpu.get_reg(0xF), 1);

    load(&mut cpu, 2, 0b0100_0000);
    assert_eq!(cpu.execute(0x800E, (0x8, 2, 0, 0xE), 0), Ok(Action::Continue));
    assert_eq!(cpu.get_reg(2), 0b1000_0000);
    // Post-shift high bit is 1, yet the flag is the shifted-out 0.
    assert_eq!(cpu.get_reg(0xF), 0);
}

#[test]
fn or_and_xor_have_no_flag_effect() {
    let mut cpu = fresh_cpu();
    load(&mut cpu, 1, 0b1100);
    load(&mut cpu, 2, 0b1010);
    assert_eq!(cpu.execute(0x8001, (0x8, 1, 2, 1), 0), Ok(Action::Continue));
    assert_eq!(cpu.get_reg(1), 0b1110);

    load(&mut cpu, 3, 0b1100);
    assert_eq!(cpu.execute(0x8002, (0x8, 3, 2, 2), 0), Ok(Action::Continue));
    assert_eq!(cpu.get_reg(3), 0b1000);

    load(&mut cpu, 4, 0b1100);
    assert_eq!(cpu.execute(0x8003, (0x8, 4, 2, 3), 0), Ok(Action::Continue));
    assert_eq!(cpu.get_reg(4), 0b0110);

    assert_eq!(cpu.get_reg(0xF), 0);
}

#[test]
fn ld_reg_copies() {
    let mut cpu = fresh_cpu();
    load(&mut cpu, 2, 99);
    assert_eq!(cpu.execute(0x8000, (0x8, 1, 2, 0), 0), Ok(Action::Continue));
    assert_eq!(cpu.get_reg(1), 99);
}

#[test]
fn rnd_with_zero_mask_is_zero() {
    let mut cpu = fresh_cpu();
    load(&mut cpu, 1, 0xAA);
    assert_eq!(cpu.execute(0xC000, (0xC, 1, 0, 0), 0), Ok(Action::Continue));
    assert_eq!(cpu.get_reg(1), 0);
}

#[test]
fn rnd_respects_mask() {
    let mut cpu = fresh_cpu();
    for _ in 0..32 {
        assert_eq!(cpu.execute(0xC000, (0xC, 1, 0, 0xF), 0), Ok(Action::Continue));
        assert!(cpu.get_reg(1) < 16);
    }
}
