//! The 4 KiB linear memory, with the font sprites pre-loaded at address 0
//! and program bytes loaded at address 0x200.

use vstd::prelude::*;

use crate::sprites::{font_byte, font_rows, ASCIISprite, Chip8Sprite};
use crate::Chip8Error;

verus! {

/// The size of the address space in bytes.
pub const MEMORY_SIZE: usize = 4096;

/// The address at which program bytes are loaded.
pub const PROGRAM_OFFSET: usize = 0x200;

/// The largest program that fits between 0x200 and the end of memory.
pub const MAX_PROGRAM_SIZE: usize = 3584;

/// An address at or beyond the end of memory.  Every access through such
/// an address is a fatal error.
#[derive(Clone, Copy, PartialEq, Eq, Structural, Debug)]
pub struct InvalidAddress(pub usize);

/// The machine's memory: 4096 bytes, addressed from 0.
pub struct Memory {
    memory_bank: Vec<u8>,
}

impl View for Memory {
    type V = Seq<u8>;

    closed spec fn view(&self) -> Seq<u8> {
        self.memory_bank@
    }
}

/// The big-endian 16-bit word formed by the bytes at `addr` and `addr + 1`.
pub open spec fn word_at(mem: Seq<u8>, addr: int) -> u16 {
    (mem[addr] * 256 + mem[addr + 1]) as u16
}

impl Memory {
    /// Memory always spans exactly 4096 bytes.
    pub open spec fn wf(&self) -> bool {
        self@.len() == MEMORY_SIZE
    }

    /// Creates memory in its power-on state: the 16 font glyphs in the
    /// first 80 bytes, zeroes everywhere else.
    pub fn new() -> (memory: Memory)
        ensures
            memory.wf(),
            forall|j: int| 0 <= j < 80 ==> memory@[j] == font_byte(j),
            forall|j: int| 80 <= j < 4096 ==> memory@[j] == 0u8,
    {
        let mut bank: Vec<u8> = vec![0u8; MEMORY_SIZE];
        let mut digit: u8 = 0;
        while digit < 16
            invariant
                bank@.len() == MEMORY_SIZE,
                digit <= 16,
                forall|j: int| 0 <= j < 5 * digit ==> bank@[j] == font_byte(j),
                forall|j: int| 5 * digit <= j < 4096 ==> bank@[j] == 0u8,
            decreases 16 - digit,
        {
            let sprite = Chip8Sprite::of_digit(digit);
            let rows = sprite.rows();
            let base: usize = digit as usize * 5;
            let mut k: usize = 0;
            while k < 5
                invariant
                    bank@.len() == MEMORY_SIZE,
                    digit < 16,
                    base == 5 * digit,
                    k <= 5,
                    rows@ == font_rows(digit as int),
                    forall|j: int| 0 <= j < 5 * digit ==> bank@[j] == font_byte(j),
                    forall|j: int| base <= j < base + k ==> bank@[j] == font_rows(digit as int)[j - base],
                    forall|j: int| base + k <= j < 4096 ==> bank@[j] == 0u8,
                decreases 5 - k,
            {
                bank[base + k] = rows[k];
                k += 1;
            }
            proof {
                assert forall|j: int| 5 * digit <= j < 5 * (digit + 1) implies bank@[j] == font_byte(
                    j,
                ) by {
                    assert(j / 5 == digit as int && j % 5 == j - 5 * digit) by (nonlinear_arith)
                        requires
                            5 * digit <= j < 5 * (digit + 1),
                    ;
                }
            }
            digit += 1;
        }
        Memory { memory_bank: bank }
    }

    /// Reads one byte, or fails with the offending address when it lies at
    /// or beyond the end of memory.
    pub fn read(&self, addr: usize) -> (result: Result<u8, InvalidAddress>)
        requires
            self.wf(),
        ensures
            addr < 4096 ==> result == Ok::<u8, InvalidAddress>(self@[addr as int]),
            addr >= 4096 ==> result == Err::<u8, InvalidAddress>(InvalidAddress(addr)),
    {
        if addr < MEMORY_SIZE {
            Ok(self.memory_bank[addr])
        } else {
            Err(InvalidAddress(addr))
        }
    }

    /// Writes one byte, or fails with the offending address when it lies at
    /// or beyond the end of memory.
    pub fn write(&mut self, addr: usize, value: u8) -> (result: Result<(), InvalidAddress>)
        requires
            old(self).wf(),
        ensures
            final(self).wf(),
            addr < 4096 ==> result == Ok::<(), InvalidAddress>(())
                && final(self)@ == old(self)@.update(addr as int, value),
            addr >= 4096 ==> result == Err::<(), InvalidAddress>(InvalidAddress(addr))
                && final(self)@ == old(self)@,
    {
        if addr < MEMORY_SIZE {
            self.memory_bank[addr] = value;
            Ok(())
        } else {
            Err(InvalidAddress(addr))
        }
    }

    /// Reads the big-endian 16-bit word at `addr`, or fails with the first
    /// address of the pair that lies beyond the end of memory.
    pub fn read_instruction(&self, addr: usize) -> (result: Result<u16, InvalidAddress>)
        requires
            self.wf(),
        ensures
            addr + 1 < 4096 ==> result == Ok::<u16, InvalidAddress>(word_at(self@, addr as int)),
            addr >= 4096 ==> result == Err::<u16, InvalidAddress>(InvalidAddress(addr)),
            addr < 4096 && addr + 1 >= 4096 ==> result == Err::<u16, InvalidAddress>(
                InvalidAddress((addr + 1) as usize),
            ),
    {
        if addr >= MEMORY_SIZE {
            Err(InvalidAddress(addr))
        } else if addr + 1 >= MEMORY_SIZE {
            Err(InvalidAddress(addr + 1))
        } else {
            let msb = self.memory_bank[addr];
            let lsb = self.memory_bank[addr + 1];
            Ok((msb as u16) * 256 + (lsb as u16))
        }
    }

    /// Reads one byte of a known-good address.
    pub fn byte_at(&self, addr: usize) -> (b: u8)
        requires
            self.wf(),
            addr < 4096,
        ensures
            b == self@[addr as int],
    {
        self.memory_bank[addr]
    }

    /// Writes one byte to a known-good address.
    pub fn set_byte(&mut self, addr: usize, value: u8)
        requires
            old(self).wf(),
            addr < 4096,
        ensures
            final(self).wf(),
            final(self)@ == old(self)@.update(addr as int, value),
    {
        self.memory_bank[addr] = value;
    }

    /// Copies a program into memory starting at 0x200, or fails when it is
    /// longer than the 3584 bytes available there.  Memory outside the
    /// program's bytes is untouched.
    pub fn fill_program(&mut self, program: &[u8]) -> (result: Result<(), Chip8Error>)
        requires
            old(self).wf(),
        ensures
            final(self).wf(),
            program@.len() <= MAX_PROGRAM_SIZE ==> result == Ok::<(), Chip8Error>(()) && {
                &&& forall|j: int|
                    0 <= j < program@.len() ==> final(self)@[0x200 + j] == program@[j]
                &&& forall|j: int|
                    0 <= j < 0x200 ==> final(self)@[j] == old(self)@[j]
                &&& forall|j: int|
                    0x200 + program@.len() <= j < 4096 ==> final(self)@[j] == old(self)@[j]
            },
            program@.len() > MAX_PROGRAM_SIZE ==> result == Err::<(), Chip8Error>(
                Chip8Error::ProgramTooLarge(program@.len() as usize),
            ) && final(self)@ == old(self)@,
    {
        if program.len() > MAX_PROGRAM_SIZE {
            return Err(Chip8Error::ProgramTooLarge(program.len()));
        }
        let mut k: usize = 0;
        while k < program.len()
            invariant
                self@.len() == MEMORY_SIZE,
                program@.len() <= MAX_PROGRAM_SIZE,
                k <= program@.len(),
                forall|j: int| 0 <= j < k ==> self@[0x200 + j] == program@[j],
                forall|j: int| 0 <= j < 0x200 ==> self@[j] == old(self)@[j],
                forall|j: int| 0x200 + k <= j < 4096 ==> self@[j] == old(self)@[j],
            decreases program@.len() - k,
        {
            self.memory_bank[PROGRAM_OFFSET + k] = program[k];
            k += 1;
        }
        Ok(())
    }

    /// The current 5 bytes of the named digit's font slot.  The glyphs are
    /// there at power-on; a program may overwrite them.
    pub fn sprite(&self, sprite: ASCIISprite) -> (rows: Vec<u8>)
        requires
            self.wf(),
        ensures
            rows@ == self@.subrange(5 * sprite.idx(), 5 * sprite.idx() + 5),
    {
        let start = crate::sprites::get_location(sprite);
        let mut rows: Vec<u8> = Vec::new();
        let mut k: usize = 0;
        while k < 5
            invariant
                self.wf(),
                start == 5 * sprite.idx(),
                k <= 5,
                rows@.len() == k,
                forall|j: int| 0 <= j < k ==> rows@[j] == self@[start + j],
            decreases 5 - k,
        {
            rows.push(self.memory_bank[start + k]);
            k += 1;
        }
        proof {
            assert(rows@ =~= self@.subrange(5 * sprite.idx(), 5 * sprite.idx() + 5));
        }
        rows
    }
}

} // verus!
