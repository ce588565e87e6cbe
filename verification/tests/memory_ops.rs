//! Memory-facing opcodes, the address space, the call stack, and the
//! nibble helpers.

use chip8::cpu::CPU;
use chip8::display::Display;
use chip8::isa::Action;
use chip8::isa::VmError;
use chip8::memory::font_sprites;
use chip8::memory::Memory;
use chip8::stack::Stack;
use chip8::util::get_octet;
use chip8::util::test_nth_bit;
use chip8::util::to_addr;
use chip8::util::to_id;
use chip8::util::to_octets;
use chip8::util::to_u8;

fn fresh_cpu() -> CPU {
    CPU::new(Memory::new(), Display::new())
}

fn mem_byte(cpu: &CPU, addr: u16) -> u8 {
    cpu.memory().get_u8(addr).unwrap()
}

#[test]
fn ld_b_vx_stores_decimal_digits() {
    let mut cpu = fresh_cpu();
    // V3 = 246, I = 0x300, then the BCD store.
    assert_eq!(cpu.execute(0x6000, (0x6, 3, 0xF, 0x6), 0), Ok(Action::Continue));
    assert_eq!(cpu.execute(0xA000, (0xA, 0x3, 0x0, 0x0), 0), Ok(Action::Continue));
    assert_eq!(cpu.execute(0xF033, (0xF, 3, 0x3, 0x3), 0), Ok(Action::Continue));
    assert_eq!(mem_byte(&cpu, 0x300), 2);
    assert_eq!(mem_byte(&cpu, 0x301), 4);
    assert_eq!(mem_byte(&cpu, 0x302), 6);
}

#[test]
fn ld_b_vx_one_digit_value() {
    let mut cpu = fresh_cpu();
    assert_eq!(cpu.execute(0x6000, (0x6, 3, 0x0, 0x7), 0), Ok(Action::Continue));
    assert_eq!(cpu.execute(0xA000, (0xA, 0x3, 0x0, 0x0), 0), Ok(Action::Continue));
    assert_eq!(cpu.execute(0xF033, (0xF, 3, 0x3, 0x3), 0), Ok(Action::Continue));
    assert_eq!(mem_byte(&cpu, 0x300), 0);
    assert_eq!(mem_byte(&cpu, 0x301), 0);
    assert_eq!(mem_byte(&cpu, 0x302), 7);
}

#[test]
fn ld_b_vx_out_of_bounds_fails() {
    let mut cpu = fresh_cpu();
    assert_eq!(cpu.execute(0xA000, (0xA, 0xF, 0xF, 0xE), 0), Ok(Action::Continue));
    assert_eq!(cpu.execute(0xF033, (0xF, 3, 0x3, 0x3), 0), Err(VmError::OutOfBounds));
}

#[test]
fn store_then_load_round_trip() {
    let mut cpu = fresh_cpu();
    for x in 0..4u8 {
        assert_eq!(cpu.execute(0x6000, (0x6, x, 0x1, x), 0), Ok(Action::Continue));
    }
    assert_eq!(cpu.execute(0xA000, (0xA, 0x4, 0x0, 0x0), 0), Ok(Action::Continue));
    // Store V0..=V3 at I.
    assert_eq!(cpu.execute(0xF055, (0xF, 3, 0x5, 0x5), 0), Ok(Action::Continue));
    for x in 0..4u16 {
        assert_eq!(mem_byte(&cpu, 0x400 + x), 0x10 + x as u8);
    }
    // Scramble the registers, then load them back.
    for x in 0..4u8 {
        assert_eq!(cpu.execute(0x6000, (0x6, x, 0xE, 0xE), 0), Ok(Action::Continue));
    }
    assert_eq!(cpu.execute(0xF065, (0xF, 3, 0x6, 0x5), 0), Ok(Action::Continue));
    for x in 0..4u8 {
        assert_eq!(cpu.get_reg(x), 0x10 + x);
    }
    // A register past X was never touched.
    assert_eq!(cpu.get_reg(4), 0);
}

#[test]
fn store_range_is_inclusive() {
    let mut cpu = fresh_cpu();
    assert_eq!(cpu.execute(0x6000, (0x6, 0, 0x0, 0x9), 0), Ok(Action::Continue));
    assert_eq!(cpu.execute(0xA000, (0xA, 0x5, 0x0, 0x0), 0), Ok(Action::Continue));
    // X = 0 still stores exactly V0.
    assert_eq!(cpu.execute(0xF055, (0xF, 0, 0x5, 0x5), 0), Ok(Action::Continue));
    assert_eq!(mem_byte(&cpu, 0x500), 9);
    assert_eq!(mem_byte(&cpu, 0x501), 0);
}

#[test]
fn store_out_of_bounds_fails() {
    let mut cpu = fresh_cpu();
    assert_eq!(cpu.execute(0xA000, (0xA, 0xF, 0xF, 0xD), 0), Ok(Action::Continue));
    assert_eq!(cpu.execute(0xF055, (0xF, 3, 0x5, 0x5), 0), Err(VmError::OutOfBounds));
    assert_eq!(cpu.execute(0xF065, (0xF, 3, 0x6, 0x5), 0), Err(VmError::OutOfBounds));
}

#[test]
fn ld_f_vx_points_at_the_glyph() {
    let mut cpu = fresh_cpu();
    assert_eq!(cpu.execute(0x6000, (0x6, 0, 0x0, 0xA), 0), Ok(Action::Continue));
    assert_eq!(cpu.execute(0xF029, (0xF, 0, 0x2, 0x9), 0), Ok(Action::Continue));
    assert_eq!(cpu.get_ireg(), 50);
}

#[test]
fn ld_f_vx_rejects_a_non_digit() {
    let mut cpu = fresh_cpu();
    assert_eq!(cpu.execute(0x6000, (0x6, 0, 0x1, 0x0), 0), Ok(Action::Continue));
    assert_eq!(cpu.execute(0xF029, (0xF, 0, 0x2, 0x9), 0), Err(VmError::OutOfBounds));
}

#[test]
fn add_i_vx_accumulates() {
    let mut cpu = fresh_cpu();
    assert_eq!(cpu.execute(0xA000, (0xA, 0x1, 0x0, 0x0), 0), Ok(Action::Continue));
    assert_eq!(cpu.execute(0x6000, (0x6, 2, 0x0, 0x5), 0), Ok(Action::Continue));
    assert_eq!(cpu.execute(0xF01E, (0xF, 2, 0x1, 0xE), 0), Ok(Action::Continue));
    assert_eq!(cpu.get_ireg(), 0x105);
}

#[test]
fn timer_transfers() {
    let mut cpu = fresh_cpu();
    assert_eq!(cpu.execute(0x6000, (0x6, 1, 0x2, 0xA), 0), Ok(Action::Continue));
    assert_eq!(cpu.execute(0xF015, (0xF, 1, 0x1, 0x5), 0), Ok(Action::Continue));
    assert_eq!(cpu.get_delay(), 0x2A);
    assert_eq!(cpu.execute(0xF018, (0xF, 1, 0x1, 0x8), 0), Ok(Action::Continue));
    assert_eq!(cpu.get_sound(), 0x2A);
    assert_eq!(cpu.execute(0xF007, (0xF, 2, 0x0, 0x7), 0), Ok(Action::Continue));
    assert_eq!(cpu.get_reg(2), 0x2A);
}

#[test]
fn timers_saturate_at_zero() {
    let mut cpu = fresh_cpu();
    assert_eq!(cpu.execute(0x6000, (0x6, 1, 0x0, 0x2), 0), Ok(Action::Continue));
    assert_eq!(cpu.execute(0xF015, (0xF, 1, 0x1, 0x5), 0), Ok(Action::Continue));
    cpu.update_timers();
    assert_eq!(cpu.get_delay(), 1);
    cpu.update_timers();
    assert_eq!(cpu.get_delay(), 0);
    for _ in 0..5 {
        cpu.update_timers();
        assert_eq!(cpu.get_delay(), 0);
        assert_eq!(cpu.get_sound(), 0);
    }
}

#[test]
fn memory_loads_program_and_sprites() {
    let mut mem = Memory::new();
    assert_eq!(mem.load_sprites(&font_sprites()), Some(()));
    assert_eq!(mem.load_exe(&[0xAB, 0xCD]), Some(()));
    let mem = mem.build();
    assert_eq!(mem.get_u8(0), Some(0xF0));
    assert_eq!(mem.get_u8(79), Some(0x80));
    assert_eq!(mem.get_u8(0x200), Some(0xAB));
    assert_eq!(mem.get_u8(0x201), Some(0xCD));
    assert_eq!(mem.get_instruction(0x200), Some(0xABCD));
}

#[test]
fn font_table_has_eighty_bytes() {
    let table = font_sprites();
    assert_eq!(table.len(), 80);
    assert_eq!(table[0], 0xF0);
    assert_eq!(&table[50..55], &[0xF0, 0x90, 0xF0, 0x90, 0x90]);
}

#[test]
fn font_sprite_lookup_matches_the_table() {
    let mut mem = Memory::new();
    assert_eq!(mem.load_sprites(&font_sprites()), Some(()));
    assert_eq!(mem.get_font_sprite_addr(0xA), Some(50));
    assert_eq!(mem.get_font_sprite(0xA).unwrap(), &[0xF0, 0x90, 0xF0, 0x90, 0x90]);
    assert_eq!(mem.get_font_sprite_addr(16), None);
    assert!(mem.get_font_sprite(16).is_none());
}

#[test]
fn memory_bounds_checks() {
    let mut mem = Memory::new();
    assert_eq!(mem.get_u8(0xFFE), Some(0));
    assert_eq!(mem.get_u8(0xFFF), None);
    assert_eq!(mem.set_u8(0xFFF, 1), None);
    assert_eq!(mem.get_instruction(0xFFE), None);
    assert!(mem.get_sprites(0xFFE, 1).is_some());
    assert!(mem.get_sprites(0xFFE, 2).is_none());
}

#[test]
fn stack_is_last_in_first_out() {
    let mut stack = Stack::new();
    assert_eq!(stack.push(0x111), Some(()));
    assert_eq!(stack.push(0x222), Some(()));
    assert_eq!(stack.pop(), Some(0x222));
    assert_eq!(stack.pop(), Some(0x111));
    assert_eq!(stack.pop(), None);
}

#[test]
fn stack_rejects_a_seventeenth_entry() {
    let mut stack = Stack::new();
    for i in 0..16u16 {
        assert_eq!(stack.push(i), Some(()));
    }
    assert_eq!(stack.push(99), None);
    assert_eq!(stack.pop(), Some(15));
}

#[test]
fn nibble_helpers_take_words_apart() {
    assert_eq!(get_octet(0xABCD, 0), 0xD);
    assert_eq!(get_octet(0xABCD, 4), 0xC);
    assert_eq!(get_octet(0xABCD, 8), 0xB);
    assert_eq!(get_octet(0xABCD, 12), 0xA);
    assert_eq!(to_octets(0xABCD), (0xA, 0xB, 0xC, 0xD));
    assert_eq!(to_addr((0xA, 0xB, 0xC)), 0xABC);
    assert_eq!(to_id((0xA, 0xB, 0xC, 0xD)), 0xABCD);
    assert_eq!(to_u8((0xA, 0xB)), 0xAB);
}

#[test]
fn test_nth_bit_counts_from_the_high_bit() {
    assert!(test_nth_bit(0b1000_0000, 0));
    assert!(!test_nth_bit(0b1000_0000, 7));
    assert!(test_nth_bit(0b0000_0001, 7));
    assert!(!test_nth_bit(0b0111_1110, 0));
}

#[test]
fn decode_follows_the_family_masking() {
    let cpu = fresh_cpu();
    assert_eq!(cpu.decode(0x00E0), Some((0x00E0, (0x0, 0x0, 0xE, 0x0))));
    assert_eq!(cpu.decode(0x00EE), Some((0x00EE, (0x0, 0x0, 0xE, 0xE))));
    assert_eq!(cpu.decode(0x1234), Some((0x1000, (0x1, 0x2, 0x3, 0x4))));
    assert_eq!(cpu.decode(0x8AB4), Some((0x8004, (0x8, 0xA, 0xB, 0x4))));
    assert_eq!(cpu.decode(0xEA9E), Some((0xE09E, (0xE, 0xA, 0x9, 0xE))));
    assert_eq!(cpu.decode(0xFA65), Some((0xF065, (0xF, 0xA, 0x6, 0x5))));
    assert_eq!(cpu.decode(0xDAB3), Some((0xD000, (0xD, 0xA, 0xB, 0x3))));
}

#[test]
fn fetch_reads_big_endian_and_advances() {
    let mut cpu = {
        let mut mem = Memory::new();
        assert_eq!(mem.load_exe(&[0x61, 0x07]), Some(()));
        CPU::new(mem, Display::new())
    };
    assert_eq!(cpu.fetch(), Ok(0x6107));
    assert_eq!(cpu.get_pc(), 0x202);
}
