//! A verified CHIP-8 virtual machine.
//!
//! The library models the classic CHIP-8 interpreter: 4 KiB of memory with
//! the built-in hexadecimal font, sixteen 8-bit general registers, a 16-slot
//! call stack, a 64x32 monochrome display with XOR sprite drawing, a 16-key
//! keypad, and the 35-opcode instruction set.  Decoding and execution are
//! specified instruction by instruction and proved against those
//! specifications.

use vstd::prelude::*;

pub mod display;
pub mod instructions;
pub mod keyboard;
pub mod memory;
pub mod registers;
pub mod sprites;
pub mod stack;
pub mod system;

verus! {

/// A fatal interpreter error.  No opcode recovers from any of these; the
/// driver surfaces the error and stops.
#[derive(Clone, Copy, PartialEq, Eq, Structural, Debug)]
pub enum Chip8Error {
    /// A memory read or write used an address at or beyond 4096.
    MemoryOutOfRange(usize),
    /// A seventeenth return address was pushed onto the call stack.
    StackOverflow,
    /// A return was executed with an empty call stack.
    StackUnderflow,
    /// The decoder recognised no instruction in the fetched word.
    UnknownInstruction(u16),
    /// A program longer than 3584 bytes was loaded.
    ProgramTooLarge(usize),
}

} // verus!
