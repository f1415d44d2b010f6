//! The register file: sixteen 8-bit general registers V0..VF, the address
//! register I, the delay and sound timers, and the program counter.

use vstd::prelude::*;

verus! {

/// The number of general registers.
pub const REGISTER_COUNT: usize = 16;

/// The address where program execution starts.
pub const PROGRAM_START: u16 = 0x200;

/// One of the sixteen general registers.  VF doubles as the carry, borrow
/// and collision flag.
#[derive(Clone, Copy, PartialEq, Eq, Structural, Debug)]
pub enum Register {
    V0,
    V1,
    V2,
    V3,
    V4,
    V5,
    V6,
    V7,
    V8,
    V9,
    VA,
    VB,
    VC,
    VD,
    VE,
    VF,
}

impl Register {
    /// The register's position in the register file.
    pub open spec fn idx(self) -> int {
        match self {
            Register::V0 => 0,
            Register::V1 => 1,
            Register::V2 => 2,
            Register::V3 => 3,
            Register::V4 => 4,
            Register::V5 => 5,
            Register::V6 => 6,
            Register::V7 => 7,
            Register::V8 => 8,
            Register::V9 => 9,
            Register::VA => 10,
            Register::VB => 11,
            Register::VC => 12,
            Register::VD => 13,
            Register::VE => 14,
            Register::VF => 15,
        }
    }

    /// The register selected by a 4-bit operand field.
    pub open spec fn spec_new(register: int) -> Register {
        if register == 0 {
            Register::V0
        } else if register == 1 {
            Register::V1
        } else if register == 2 {
            Register::V2
        } else if register == 3 {
            Register::V3
        } else if register == 4 {
            Register::V4
        } else if register == 5 {
            Register::V5
        } else if register == 6 {
            Register::V6
        } else if register == 7 {
            Register::V7
        } else if register == 8 {
            Register::V8
        } else if register == 9 {
            Register::V9
        } else if register == 10 {
            Register::VA
        } else if register == 11 {
            Register::VB
        } else if register == 12 {
            Register::VC
        } else if register == 13 {
            Register::VD
        } else if register == 14 {
            Register::VE
        } else {
            Register::VF
        }
    }

    /// Names the register selected by a 4-bit operand field.
    pub fn new(register: u8) -> (r: Register)
        requires
            register < 16,
        ensures
            r == Register::spec_new(register as int),
            r.idx() == register as int,
    {
        match register {
            0 => Register::V0,
            1 => Register::V1,
            2 => Register::V2,
            3 => Register::V3,
            4 => Register::V4,
            5 => Register::V5,
            6 => Register::V6,
            7 => Register::V7,
            8 => Register::V8,
            9 => Register::V9,
            10 => Register::VA,
            11 => Register::VB,
            12 => Register::VC,
            13 => Register::VD,
            14 => Register::VE,
            _ => Register::VF,
        }
    }

    /// The register's position, as a usize for indexing.
    pub fn index(self) -> (i: usize)
        ensures
            i == self.idx(),
            i < 16,
    {
        match self {
            Register::V0 => 0,
            Register::V1 => 1,
            Register::V2 => 2,
            Register::V3 => 3,
            Register::V4 => 4,
            Register::V5 => 5,
            Register::V6 => 6,
            Register::V7 => 7,
            Register::V8 => 8,
            Register::V9 => 9,
            Register::VA => 10,
            Register::VB => 11,
            Register::VC => 12,
            Register::VD => 13,
            Register::VE => 14,
            Register::VF => 15,
        }
    }
}

/// The machine's register file.  PC starts at 0x200, where programs are
/// loaded; every other register starts at zero.
pub struct Chip8Registers {
    /// The general registers, indexed by `Register::idx`.
    pub v: Vec<u8>,
    /// The address register; only its low 12 bits name a valid address.
    pub i: u16,
    /// The delay timer, decremented at 60 Hz while nonzero.
    pub delay: u8,
    /// The sound timer, decremented at 60 Hz while nonzero.
    pub sound: u8,
    /// The program counter.
    pub pc: u16,
}

impl Chip8Registers {
    /// The register file always holds exactly 16 general registers.
    pub open spec fn wf(&self) -> bool {
        self.v@.len() == REGISTER_COUNT
    }

    /// Creates the register file in its power-on state.
    pub fn new() -> (regs: Chip8Registers)
        ensures
            regs.wf(),
            forall|j: int| 0 <= j < 16 ==> regs.v@[j] == 0u8,
            regs.i == 0u16,
            regs.delay == 0u8,
            regs.sound == 0u8,
            regs.pc == PROGRAM_START,
    {
        Chip8Registers { v: vec![0u8; REGISTER_COUNT], i: 0, delay: 0, sound: 0, pc: PROGRAM_START }
    }

    /// Reads a general register.
    pub fn get(&self, register: Register) -> (value: u8)
        requires
            self.wf(),
        ensures
            value == self.v@[register.idx()],
    {
        self.v[register.index()]
    }

    /// Borrows a general register for writing.
    pub fn get_mut(&mut self, register: Register) -> (cell: &mut u8)
        requires
            old(self).wf(),
        ensures
            *cell == old(self).v@[register.idx()],
            final(self).v@ == old(self).v@.update(register.idx(), *final(cell)),
            final(self).i == old(self).i,
            final(self).delay == old(self).delay,
            final(self).sound == old(self).sound,
            final(self).pc == old(self).pc,
            final(self).wf(),
    {
        let i = register.index();
        &mut self.v[i]
    }

    /// Writes a general register.
    pub fn set(&mut self, register: Register, value: u8)
        requires
            old(self).wf(),
        ensures
            final(self).v@ == old(self).v@.update(register.idx(), value),
            final(self).i == old(self).i,
            final(self).delay == old(self).delay,
            final(self).sound == old(self).sound,
            final(self).pc == old(self).pc,
            final(self).wf(),
    {
        let i = register.index();
        self.v[i] = value;
    }
}

} // verus!
