//! Component tests: memory and font, display drawing and rendering, the
//! stack, the keypad, the register file and the sprite tables.

use chip8_virtual_machine::display::Chip8Display;
use chip8_virtual_machine::keyboard::{toKey, Chip8Keyboard, Key};
use chip8_virtual_machine::memory::{InvalidAddress, Memory};
use chip8_virtual_machine::registers::{Chip8Registers, Register};
use chip8_virtual_machine::sprites::{get_location, ASCIISprite, Chip8Sprite};
use chip8_virtual_machine::stack::{Chip8Stack, StackError};

#[test]
fn font_is_preloaded() {
    let memory = Memory::new();
    assert_eq!(Ok(0xF0), memory.read(0));
    assert_eq!(Ok(0x20), memory.read(5));
    assert_eq!(Ok(0x80), memory.read(79));
    assert_eq!(Ok(0x00), memory.read(80));
    assert_eq!(Ok(0x00), memory.read(0x200));
}

#[test]
fn memory_rejects_out_of_range() {
    let mut memory = Memory::new();
    assert_eq!(Err(InvalidAddress(4096)), memory.read(4096));
    assert_eq!(Err(InvalidAddress(5000)), memory.write(5000, 1));
    assert_eq!(Err(InvalidAddress(4096)), memory.read_instruction(4095));
    assert_eq!(Err(InvalidAddress(9999)), memory.read_instruction(9999));
}

#[test]
fn memory_reads_big_endian_words() {
    let mut memory = Memory::new();
    memory.write(0x200, 0x12).unwrap();
    memory.write(0x201, 0x34).unwrap();
    assert_eq!(Ok(0x1234), memory.read_instruction(0x200));
}

#[test]
fn program_loads_at_512() {
    let mut memory = Memory::new();
    memory.fill_program(&[0xAA, 0xBB]).unwrap();
    assert_eq!(Ok(0xAA), memory.read(0x200));
    assert_eq!(Ok(0xBB), memory.read(0x201));
    assert_eq!(Ok(0x00), memory.read(0x202));
    assert_eq!(Ok(0xF0), memory.read(0));
}

#[test]
fn sprite_slots_hold_the_glyphs() {
    let memory = Memory::new();
    assert_eq!(vec![0xF0, 0x80, 0xF0, 0x10, 0xF0], memory.sprite(ASCIISprite::Five));
    assert_eq!(vec![0xF0, 0x90, 0x90, 0x90, 0xF0], memory.sprite(ASCIISprite::Zero));
}

#[test]
fn glyph_locations_step_by_five() {
    assert_eq!(0, get_location(ASCIISprite::Zero));
    assert_eq!(25, get_location(ASCIISprite::new(5)));
    assert_eq!(50, get_location(ASCIISprite::A));
    assert_eq!(75, get_location(ASCIISprite::F));
}

#[test]
fn sprite_constructors_match_the_font() {
    assert_eq!(&vec![0x20, 0x60, 0x20, 0x20, 0x70], Chip8Sprite::one().rows());
    assert_eq!(&vec![0xF0, 0x10, 0x20, 0x40, 0x40], Chip8Sprite::seven().rows());
    assert_eq!(&vec![0xE0, 0x90, 0xE0, 0x90, 0xE0], Chip8Sprite::b().rows());
    assert_eq!(&vec![0x01, 0x02], Chip8Sprite::new(&[0x01, 0x02]).rows());
    assert_eq!(Chip8Sprite::c().rows(), Chip8Sprite::of_digit(12).rows());
}

#[test]
fn stack_round_trips_in_lifo_order() {
    let mut stack = Chip8Stack::new();
    assert_eq!(0, stack.top_address());
    stack.push(0x202).unwrap();
    stack.push(0x208).unwrap();
    assert_eq!(1, stack.top_address());
    assert_eq!(Ok(0x208), stack.pop());
    assert_eq!(Ok(0x202), stack.pop());
    assert_eq!(Err(StackError::Empty), stack.pop());
}

#[test]
fn stack_is_bounded_at_sixteen() {
    let mut stack = Chip8Stack::new();
    for k in 0..16 {
        stack.push(k).unwrap();
    }
    assert_eq!(Err(StackError::Full), stack.push(16));
    assert_eq!(16, stack.len());
}

#[test]
fn keypad_tracks_presses() {
    let mut keyboard = Chip8Keyboard::new();
    assert!(!keyboard.is_pressed(0x5u8));
    keyboard.set_key(0x5, true);
    assert!(keyboard.is_pressed(0x5u8));
    assert!(keyboard.is_pressed(Key::Five));
    assert_eq!(None, Chip8Keyboard::new().first_pressed());
    keyboard.set_key(0x9, true);
    assert_eq!(Some(0x5), keyboard.first_pressed());
    keyboard.set_key(0x5, false);
    assert_eq!(Some(0x9), keyboard.first_pressed());
}

#[test]
fn keys_convert_from_bytes() {
    assert_eq!(Key::Zero, 0u8.to_key());
    assert_eq!(Key::A, 10u8.to_key());
    assert_eq!(Key::F, 15u8.to_key());
    assert_eq!(Key::Seven, Key::Seven.to_key());
    assert_eq!(11, Key::B.index());
}

#[test]
fn registers_start_cleared_with_pc_at_512() {
    let registers = Chip8Registers::new();
    assert_eq!(0x200, registers.pc);
    assert_eq!(0, registers.i);
    assert_eq!(0, registers.delay);
    assert_eq!(0, registers.sound);
    for k in 0..16u8 {
        assert_eq!(0, registers.get(Register::new(k)));
    }
}

#[test]
fn registers_read_back_what_was_written() {
    let mut registers = Chip8Registers::new();
    registers.set(Register::VA, 0x42);
    assert_eq!(0x42, registers.get(Register::VA));
    *registers.get_mut(Register::VA) = 0x43;
    assert_eq!(0x43, registers.v[10]);
    assert_eq!(3, Register::new(3).index());
}

#[test]
fn pixel_draw_reports_collision() {
    let mut display = Chip8Display::new();
    assert!(!display.draw_pixel(4, 7, true));
    assert!(display.pixel(4, 7));
    assert!(display.draw_pixel(4, 7, true));
    assert!(!display.pixel(4, 7));
    assert!(!display.draw_pixel(4, 7, false));
}

#[test]
fn sprite_draw_wraps_around_the_edges() {
    let rows = vec![0x80u8];
    let mut display = Chip8Display::new();
    display.draw_sprite(63, 0, &rows);
    assert!(display.pixel(63, 0));
    assert!(!display.pixel(0, 0));

    let mut display = Chip8Display::new();
    display.draw_sprite(64, 0, &rows);
    assert!(display.pixel(0, 0));
    assert!(!display.pixel(63, 0));

    let mut display = Chip8Display::new();
    display.draw_sprite(0, 32, &rows);
    assert!(display.pixel(0, 0));
    assert!(!display.pixel(0, 1));
}

#[test]
fn drawing_twice_restores_the_frame() {
    let rows = vec![0xF0u8, 0x90, 0xF0, 0x90, 0xF0];
    let mut display = Chip8Display::new();
    display.draw_pixel(1, 1, true);
    let first = display.draw_sprite(60, 30, &rows);
    assert!(!first);
    let second = display.draw_sprite(60, 30, &rows);
    assert!(second);
    for y in 0..32 {
        for x in 0..64 {
            assert_eq!(x == 1 && y == 1, display.pixel(x, y));
        }
    }
}

#[test]
fn clear_turns_every_pixel_off() {
    let mut display = Chip8Display::new();
    display.draw_pixel(10, 10, true);
    display.clear();
    assert!(!display.pixel(10, 10));
}

#[test]
fn render_shows_stars_and_dashes() {
    let mut display = Chip8Display::new();
    display.draw_pixel(1, 0, true);
    let frame = display.draw();
    assert_eq!(32 * 65, frame.len());
    assert_eq!(b'-', frame[0]);
    assert_eq!(b'*', frame[1]);
    assert_eq!(b'\n', frame[64]);
    assert_eq!(b'-', frame[65]);
}
