//! End-to-end machine tests: small programs run through the
//! fetch-decode-execute driver, plus the per-opcode flag semantics.

use chip8_virtual_machine::registers::Register;
use chip8_virtual_machine::system::Chip8Machine;
use chip8_virtual_machine::Chip8Error;

fn machine_with(rom: &[u8]) -> Chip8Machine {
    let mut machine = Chip8Machine::new();
    machine.memory_bank.fill_program(rom).unwrap();
    machine
}

#[test]
fn load_and_skip() {
    let mut machine = machine_with(&[0x6A, 0x05, 0x3A, 0x05, 0x12, 0x08, 0x12, 0x06]);
    assert_eq!(Ok(true), machine.run(10));
    assert_eq!(0x208, machine.registers.pc);
    assert_eq!(5, machine.registers.v[10]);
}

#[test]
fn arithmetic_with_carry() {
    let mut machine = machine_with(&[0x60, 0xFF, 0x61, 0x01, 0x80, 0x14]);
    for _ in 0..3 {
        machine.step().unwrap();
    }
    assert_eq!(0x00, machine.registers.v[0]);
    assert_eq!(0x01, machine.registers.v[1]);
    assert_eq!(1, machine.registers.v[15]);
}

#[test]
fn subtract_with_borrow() {
    let mut machine = machine_with(&[0x60, 0x02, 0x61, 0x03, 0x80, 0x15]);
    for _ in 0..3 {
        machine.step().unwrap();
    }
    assert_eq!(0xFF, machine.registers.v[0]);
    assert_eq!(3, machine.registers.v[1]);
    assert_eq!(0, machine.registers.v[15]);
}

#[test]
fn call_and_return() {
    let mut machine = machine_with(&[0x22, 0x06, 0x00, 0x00, 0x00, 0x00, 0x00, 0xEE]);
    machine.step().unwrap();
    assert_eq!(0x206, machine.registers.pc);
    assert_eq!(1, machine.stack.len());
    machine.step().unwrap();
    assert_eq!(0x202, machine.registers.pc);
    assert_eq!(0, machine.stack.len());
}

#[test]
fn font_draw_and_collision() {
    let rom = [0x60, 0x00, 0x61, 0x00, 0x62, 0x05, 0xF2, 0x29, 0xD0, 0x15, 0xD0, 0x15];
    let mut machine = machine_with(&rom);
    for _ in 0..5 {
        machine.step().unwrap();
    }
    // The '5' glyph starts with row 0xF0: its four leftmost pixels are on.
    assert_eq!(0, machine.registers.v[15]);
    assert!(machine.display.pixel(0, 0));
    assert!(machine.display.pixel(3, 0));
    assert!(!machine.display.pixel(4, 0));
    machine.step().unwrap();
    assert_eq!(1, machine.registers.v[15]);
    for y in 0..32 {
        for x in 0..64 {
            assert!(!machine.display.pixel(x, y));
        }
    }
}

#[test]
fn bcd_decomposition() {
    let mut machine = machine_with(&[0x60, 0x7B, 0xA3, 0x00, 0xF0, 0x33]);
    for _ in 0..3 {
        machine.step().unwrap();
    }
    assert_eq!(0x300, machine.registers.i);
    assert_eq!(Ok(1), machine.memory_bank.read(0x300));
    assert_eq!(Ok(2), machine.memory_bank.read(0x301));
    assert_eq!(Ok(3), machine.memory_bank.read(0x302));
}

#[test]
fn bcd_of_234() {
    let mut machine = Chip8Machine::new();
    machine.registers.set(Register::V4, 234);
    machine.registers.i = 0x300;
    machine.run_ldbr(Register::V4).unwrap();
    assert_eq!(Ok(2), machine.memory_bank.read(0x300));
    assert_eq!(Ok(3), machine.memory_bank.read(0x301));
    assert_eq!(Ok(4), machine.memory_bank.read(0x302));
}

#[test]
fn spin_jump_halts() {
    let mut machine = machine_with(&[0x12, 0x00]);
    assert_eq!(Ok(true), machine.run(5));
    assert_eq!(0x202, machine.registers.pc);
}

#[test]
fn run_out_of_fuel() {
    let mut machine = machine_with(&[0x60, 0x01, 0x61, 0x02, 0x62, 0x03, 0x63, 0x04]);
    assert_eq!(Ok(false), machine.run(2));
    assert_eq!(0x204, machine.registers.pc);
    assert_eq!(1, machine.registers.v[0]);
    assert_eq!(2, machine.registers.v[1]);
    assert_eq!(0, machine.registers.v[2]);
}

#[test]
fn add_carry_flag() {
    let mut machine = Chip8Machine::new();
    machine.registers.set(Register::V0, 250);
    machine.registers.set(Register::V1, 10);
    machine.run_addr(Register::V0, Register::V1);
    assert_eq!(4, machine.registers.v[0]);
    assert_eq!(1, machine.registers.v[15]);
    machine.registers.set(Register::V2, 100);
    machine.registers.set(Register::V3, 27);
    machine.run_addr(Register::V2, Register::V3);
    assert_eq!(127, machine.registers.v[2]);
    assert_eq!(0, machine.registers.v[15]);
}

#[test]
fn sub_borrow_flag() {
    let mut machine = Chip8Machine::new();
    machine.registers.set(Register::V0, 5);
    machine.registers.set(Register::V1, 3);
    machine.run_sub(Register::V0, Register::V1);
    assert_eq!(2, machine.registers.v[0]);
    assert_eq!(1, machine.registers.v[15]);
}

#[test]
fn subn_borrow_flag() {
    let mut machine = Chip8Machine::new();
    machine.registers.set(Register::V0, 3);
    machine.registers.set(Register::V1, 5);
    machine.run_subn(Register::V0, Register::V1);
    assert_eq!(2, machine.registers.v[0]);
    assert_eq!(1, machine.registers.v[15]);
    machine.registers.set(Register::V2, 9);
    machine.registers.set(Register::V3, 4);
    machine.run_subn(Register::V2, Register::V3);
    assert_eq!(0xFB, machine.registers.v[2]);
    assert_eq!(0, machine.registers.v[15]);
}

#[test]
fn shr_flag_is_low_bit() {
    let mut machine = Chip8Machine::new();
    machine.registers.set(Register::V5, 0b0000_0101);
    machine.run_shr(Register::V5);
    assert_eq!(0b0000_0010, machine.registers.v[5]);
    assert_eq!(1, machine.registers.v[15]);
    machine.run_shr(Register::V5);
    assert_eq!(0b0000_0001, machine.registers.v[5]);
    assert_eq!(0, machine.registers.v[15]);
}

#[test]
fn shl_flag_is_high_bit() {
    let mut machine = Chip8Machine::new();
    machine.registers.set(Register::V5, 0x81);
    machine.run_shl(Register::V5);
    assert_eq!(0x02, machine.registers.v[5]);
    assert_eq!(1, machine.registers.v[15]);
    machine.run_shl(Register::V5);
    assert_eq!(0x04, machine.registers.v[5]);
    assert_eq!(0, machine.registers.v[15]);
}

#[test]
fn skip_taken_exactly_once() {
    let mut machine = Chip8Machine::new();
    machine.registers.set(Register::V7, 0x42);
    let pc = machine.registers.pc;
    machine.run_sec(Register::V7, 0x42);
    assert_eq!(pc + 2, machine.registers.pc);
    machine.run_snec(Register::V7, 0x42);
    assert_eq!(pc + 2, machine.registers.pc);
    machine.run_snec(Register::V7, 0x41);
    assert_eq!(pc + 4, machine.registers.pc);
    machine.run_sec(Register::V7, 0x41);
    assert_eq!(pc + 4, machine.registers.pc);
}

#[test]
fn random_byte_is_masked() {
    let mut machine = Chip8Machine::new();
    machine.registers.set(Register::V3, 0xFF);
    machine.run_rnd(Register::V3, 0x00);
    assert_eq!(0, machine.registers.v[3]);
    machine.run_rnd_from(Register::V3, 0x0F, 0xAB);
    assert_eq!(0x0B, machine.registers.v[3]);
}

#[test]
fn wait_for_key_rewinds_until_pressed() {
    let mut machine = Chip8Machine::new();
    machine.registers.pc = 0x202;
    machine.run_ldvk(Register::V0);
    assert_eq!(0x200, machine.registers.pc);
    machine.registers.pc = 0x202;
    machine.keyboard.set_key(0x7, true);
    machine.run_ldvk(Register::V0);
    assert_eq!(0x202, machine.registers.pc);
    assert_eq!(0x7, machine.registers.v[0]);
}

#[test]
fn skip_on_key_state() {
    let mut machine = Chip8Machine::new();
    machine.registers.set(Register::V0, 0x1);
    machine.keyboard.set_key(0x1, true);
    let pc = machine.registers.pc;
    machine.run_skp(Register::V0);
    assert_eq!(pc + 2, machine.registers.pc);
    machine.run_sknp(Register::V0);
    assert_eq!(pc + 2, machine.registers.pc);
    machine.keyboard.set_key(0x1, false);
    machine.run_sknp(Register::V0);
    assert_eq!(pc + 4, machine.registers.pc);
}

#[test]
fn timers_tick_down_to_zero() {
    let mut machine = Chip8Machine::new();
    machine.registers.set(Register::V0, 2);
    machine.run_lddr(Register::V0);
    machine.run_ldsr(Register::V0);
    machine.tick_timers();
    assert_eq!(1, machine.registers.delay);
    assert_eq!(1, machine.registers.sound);
    machine.tick_timers();
    machine.tick_timers();
    assert_eq!(0, machine.registers.delay);
    assert_eq!(0, machine.registers.sound);
}

#[test]
fn store_and_load_registers() {
    let mut machine = Chip8Machine::new();
    for k in 0..4u8 {
        machine.registers.set(Register::new(k), 10 + k);
    }
    machine.registers.i = 0x400;
    machine.run_ldrs(Register::V3).unwrap();
    for k in 0..4usize {
        assert_eq!(Ok(10 + k as u8), machine.memory_bank.read(0x400 + k));
    }
    assert_eq!(Ok(0), machine.memory_bank.read(0x404));
    let mut reader = Chip8Machine::new();
    reader.memory_bank = machine.memory_bank;
    reader.registers.i = 0x400;
    reader.run_rdrs(Register::V3).unwrap();
    for k in 0..4usize {
        assert_eq!(10 + k as u8, reader.registers.v[k]);
    }
    assert_eq!(0, reader.registers.v[4]);
}

#[test]
fn font_pointer_uses_low_nibble() {
    let mut machine = Chip8Machine::new();
    machine.registers.set(Register::V2, 0xA5);
    machine.run_ldir(Register::V2);
    assert_eq!(25, machine.registers.i);
}

#[test]
fn add_to_index_accumulates() {
    let mut machine = Chip8Machine::new();
    machine.registers.i = 0x300;
    machine.registers.set(Register::V1, 0x10);
    machine.run_addi(Register::V1);
    assert_eq!(0x310, machine.registers.i);
    machine.run_addi(Register::V1);
    assert_eq!(0x320, machine.registers.i);
}

#[test]
fn sys_is_a_no_op() {
    let mut machine = Chip8Machine::new();
    machine.run_sys(0x123);
    assert_eq!(0x200, machine.registers.pc);
}

#[test]
fn unknown_instruction_is_fatal() {
    let mut machine = machine_with(&[0xFF, 0xFF]);
    assert_eq!(Err(Chip8Error::UnknownInstruction(0xFFFF)), machine.step());
    assert_eq!(0x200, machine.registers.pc);
}

#[test]
fn return_with_empty_stack_is_fatal() {
    let mut machine = machine_with(&[0x00, 0xEE]);
    assert_eq!(Err(Chip8Error::StackUnderflow), machine.step());
    assert_eq!(0x200, machine.registers.pc);
}

#[test]
fn seventeenth_call_overflows() {
    let mut machine = Chip8Machine::new();
    for _ in 0..16 {
        machine.run_call(0x300).unwrap();
    }
    assert_eq!(Err(Chip8Error::StackOverflow), machine.run_call(0x300));
}

#[test]
fn bcd_past_end_of_memory_is_fatal() {
    let mut machine = Chip8Machine::new();
    machine.registers.i = 4094;
    assert_eq!(Err(Chip8Error::MemoryOutOfRange(4096)), machine.run_ldbr(Register::V0));
}

#[test]
fn draw_past_end_of_memory_is_fatal() {
    let mut machine = Chip8Machine::new();
    machine.registers.i = 4090;
    assert_eq!(
        Err(Chip8Error::MemoryOutOfRange(4096)),
        machine.run_drw(Register::V0, Register::V1, 15)
    );
}

#[test]
fn fetch_past_end_of_memory_is_fatal() {
    let mut machine = Chip8Machine::new();
    machine.registers.pc = 4095;
    assert_eq!(Err(Chip8Error::MemoryOutOfRange(4096)), machine.step());
    machine.registers.pc = 0x2000;
    assert_eq!(Err(Chip8Error::MemoryOutOfRange(0x2000)), machine.step());
}

#[test]
fn oversized_program_is_rejected() {
    let mut machine = Chip8Machine::new();
    let rom = vec![0u8; 3585];
    assert_eq!(Err(Chip8Error::ProgramTooLarge(3585)), machine.memory_bank.fill_program(&rom));
    let rom = vec![0x12u8; 3584];
    assert_eq!(Ok(()), machine.memory_bank.fill_program(&rom));
}
