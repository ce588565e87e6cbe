//! The display compositor: XOR blits, collision reporting, clears.

use chip8::cpu::CPU;
use chip8::display::Display;
use chip8::display::DISPLAY_TOTAL_WIDTH;
use chip8::isa::Action;
use chip8::isa::VmError;
use chip8::memory::Memory;

/// A CPU whose memory holds an all-set 8x1 sprite at 0x300.
fn cpu_with_sprite() -> CPU {
    let mut mem = Memory::new();
    assert_eq!(mem.set_u8(0x300, 0xFF), Some(()));
    CPU::new(mem, Display::new())
}

fn buf_byte(cpu: &CPU, row: usize, col: usize) -> u8 {
    cpu.display().get_video_buf().unwrap()[row * DISPLAY_TOTAL_WIDTH + col]
}

#[test]
fn drw_twice_is_identity_and_reports_collision() {
    let mut cpu = cpu_with_sprite();
    assert_eq!(cpu.execute(0xA000, (0xA, 0x3, 0x0, 0x0), 0), Ok(Action::Continue));

    // First draw at (0, 0): row 0, columns 0..=7 set, no collision.
    assert_eq!(cpu.execute(0xD000, (0xD, 0, 1, 1), 0), Ok(Action::Redraw));
    assert_eq!(cpu.get_reg(0xF), 0);
    assert_eq!(buf_byte(&cpu, 0, 0), 0xFF);
    assert_eq!(buf_byte(&cpu, 0, 1), 0x00);
    assert_eq!(buf_byte(&cpu, 1, 0), 0x00);

    // The same draw again: collision, and XOR clears the pixels.
    assert_eq!(cpu.execute(0xD000, (0xD, 0, 1, 1), 0), Ok(Action::Redraw));
    assert_eq!(cpu.get_reg(0xF), 1);
    assert_eq!(buf_byte(&cpu, 0, 0), 0x00);
    assert_eq!(buf_byte(&cpu, 0, 1), 0x00);
}

#[test]
fn drw_straddles_a_byte_boundary() {
    let mut cpu = cpu_with_sprite();
    assert_eq!(cpu.execute(0xA000, (0xA, 0x3, 0x0, 0x0), 0), Ok(Action::Continue));
    // x = 4, y = 2.
    assert_eq!(cpu.execute(0x6000, (0x6, 0, 0x0, 0x4), 0), Ok(Action::Continue));
    assert_eq!(cpu.execute(0x6000, (0x6, 1, 0x0, 0x2), 0), Ok(Action::Continue));
    assert_eq!(cpu.execute(0xD000, (0xD, 0, 1, 1), 0), Ok(Action::Redraw));
    assert_eq!(cpu.get_reg(0xF), 0);
    assert_eq!(buf_byte(&cpu, 2, 0), 0x0F);
    assert_eq!(buf_byte(&cpu, 2, 1), 0xF0);
}

#[test]
fn drw_partial_overlap_collides_once() {
    let mut cpu = cpu_with_sprite();
    assert_eq!(cpu.execute(0xA000, (0xA, 0x3, 0x0, 0x0), 0), Ok(Action::Continue));
    assert_eq!(cpu.execute(0xD000, (0xD, 0, 1, 1), 0), Ok(Action::Redraw));
    // Shift x to 4: the right half overlaps the first draw.
    assert_eq!(cpu.execute(0x6000, (0x6, 0, 0x0, 0x4), 0), Ok(Action::Continue));
    assert_eq!(cpu.execute(0xD000, (0xD, 0, 1, 1), 0), Ok(Action::Redraw));
    assert_eq!(cpu.get_reg(0xF), 1);
    assert_eq!(buf_byte(&cpu, 0, 0), 0xF0);
    assert_eq!(buf_byte(&cpu, 0, 1), 0xF0);
}

#[test]
fn drw_off_screen_x_fails() {
    let mut cpu = cpu_with_sprite();
    assert_eq!(cpu.execute(0xA000, (0xA, 0x3, 0x0, 0x0), 0), Ok(Action::Continue));
    assert_eq!(cpu.execute(0x6000, (0x6, 0, 0x4, 0x6), 0), Ok(Action::Continue));
    assert_eq!(cpu.execute(0xD000, (0xD, 0, 1, 1), 0), Err(VmError::OutOfBounds));
    assert_eq!(buf_byte(&cpu, 0, 0), 0x00);
}

#[test]
fn drw_sprite_bytes_out_of_memory_fail() {
    let mut cpu = cpu_with_sprite();
    assert_eq!(cpu.execute(0xA000, (0xA, 0xF, 0xF, 0xE), 0), Ok(Action::Continue));
    assert_eq!(cpu.execute(0xD000, (0xD, 0, 1, 2), 0), Err(VmError::OutOfBounds));
}

#[test]
fn cls_clears_everything() {
    let mut cpu = cpu_with_sprite();
    assert_eq!(cpu.execute(0xA000, (0xA, 0x3, 0x0, 0x0), 0), Ok(Action::Continue));
    assert_eq!(cpu.execute(0xD000, (0xD, 0, 1, 1), 0), Ok(Action::Redraw));
    assert_eq!(cpu.execute(0x00E0, (0x0, 0x0, 0xE, 0x0), 0), Ok(Action::Redraw));
    let buf = cpu.display().get_video_buf().unwrap();
    assert!(buf.iter().all(|&b| b == 0));
}

#[test]
fn apply_sprites_reports_each_row() {
    let mut display = Display::new();
    // Two rows at (0, 0): both set the same byte column.
    assert_eq!(display.apply_sprites(0, 0, &[0xFF, 0x81]), Some(0));
    // One overlapping row collides even when the other is clean.
    assert_eq!(display.apply_sprites(0, 1, &[0x81, 0x00]), Some(1));
    let buf = display.get_video_buf().unwrap();
    assert_eq!(buf[0], 0xFF);
    assert_eq!(buf[DISPLAY_TOTAL_WIDTH], 0x00);
}

#[test]
fn apply_sprites_rejects_out_of_range() {
    let mut display = Display::new();
    assert_eq!(display.apply_sprites(64, 0, &[0xFF]), None);
    assert_eq!(display.apply_sprites(0, 36, &[0xFF]), None);
    assert_eq!(display.apply_sprites(0, 35, &[0xFF, 0xFF]), None);
    assert_eq!(display.apply_sprites(0, 35, &[0xFF]), Some(0));
}

#[test]
fn clear_zeroes_the_buffer() {
    let mut display = Display::new();
    assert_eq!(display.apply_sprites(10, 10, &[0xFF]), Some(0));
    display.clear();
    assert!(display.get_video_buf().unwrap().iter().all(|&b| b == 0));
}
