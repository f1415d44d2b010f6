//! Instruction decoding: a pure, total function from a 16-bit word to a
//! typed instruction, or `None` for a bit pattern that names no
//! instruction.
//!
//! With `(a, x, y, n)` the four hex digits of the word from the most
//! significant down, `kk` its low byte and `nnn` its low 12 bits, the
//! decode table is matched most-specific first, so that `00E0` and `00EE`
//! are recognised before the general `0nnn` bucket.

use vstd::prelude::*;

use crate::registers::Register;

verus! {

/// A decoded instruction, one variant per opcode class, carrying the
/// operands extracted from the word.
#[derive(Clone, Copy, PartialEq, Eq, Structural, Debug)]
pub enum Instruction {
    /// `0nnn`: jump to a machine routine; a no-op on modern interpreters.
    SYS(u16),
    /// `00E0`: clear the display.
    CLS,
    /// `00EE`: return from a subroutine.
    RET,
    /// `1nnn`: jump to nnn.
    JP(u16),
    /// `2nnn`: call the subroutine at nnn.
    CALL(u16),
    /// `3xkk`: skip the next instruction if Vx equals the constant.
    SEC(Register, u8),
    /// `4xkk`: skip the next instruction if Vx differs from the constant.
    SNEC(Register, u8),
    /// `5xy0`: skip the next instruction if Vx equals Vy.
    SER(Register, Register),
    /// `6xkk`: load the constant into Vx.
    LDC(Register, u8),
    /// `7xkk`: add the constant to Vx, wrapping, without touching VF.
    ADDC(Register, u8),
    /// `8xy0`: copy Vy into Vx.
    LDR(Register, Register),
    /// `8xy1`: Vx |= Vy.
    OR(Register, Register),
    /// `8xy2`: Vx &= Vy.
    AND(Register, Register),
    /// `8xy3`: Vx ^= Vy.
    XOR(Register, Register),
    /// `8xy4`: Vx += Vy, wrapping; VF holds the carry.
    ADDR(Register, Register),
    /// `8xy5`: Vx -= Vy, wrapping; VF holds the no-borrow flag.
    SUB(Register, Register),
    /// `8x_6`: shift Vx right by one; VF holds the shifted-out bit.
    SHR(Register),
    /// `8xy7`: Vx = Vy - Vx, wrapping; VF holds the no-borrow flag.
    SUBN(Register, Register),
    /// `8x_E`: shift Vx left by one; VF holds the shifted-out bit.
    SHL(Register),
    /// `9xy0`: skip the next instruction if Vx differs from Vy.
    SNE(Register, Register),
    /// `Annn`: load nnn into I.
    LDI(u16),
    /// `Bnnn`: jump to V0 + nnn.
    JPA(u16),
    /// `Cxkk`: load a random byte masked with the constant into Vx.
    RND(Register, u8),
    /// `Dxyn`: draw the n-byte sprite at I at position (Vx, Vy).
    DRW(Register, Register, u8),
    /// `Ex9E`: skip the next instruction if the key named by Vx is pressed.
    SKP(Register),
    /// `ExA1`: skip the next instruction if that key is not pressed.
    SKNP(Register),
    /// `Fx07`: load the delay timer into Vx.
    LDRD(Register),
    /// `Fx0A`: wait for a key press and load its index into Vx.
    LDVK(Register),
    /// `Fx15`: load Vx into the delay timer.
    LDDR(Register),
    /// `Fx18`: load Vx into the sound timer.
    LDSR(Register),
    /// `Fx1E`: add Vx to I.
    ADDI(Register),
    /// `Fx29`: point I at the font glyph of the digit in Vx.
    LDIR(Register),
    /// `Fx33`: write the BCD digits of Vx at I, I+1, I+2.
    LDBR(Register),
    /// `Fx55`: store V0..Vx into memory starting at I.
    LDRS(Register),
    /// `Fx65`: load V0..Vx from memory starting at I.
    RDRS(Register),
}

impl Instruction {
    /// The decode table.  Every 16-bit word decodes to exactly one variant
    /// or to `None`.
    pub open spec fn spec_new(w: u16) -> Option<Instruction> {
        let a = w as int / 0x1000;
        let x = (w as int / 0x100) % 0x10;
        let y = (w as int / 0x10) % 0x10;
        let n = w as int % 0x10;
        let kk = (w as int % 0x100) as u8;
        let nnn = (w as int % 0x1000) as u16;
        let rx = Register::spec_new(x);
        let ry = Register::spec_new(y);
        if a == 0x0 && x == 0x0 && y == 0xE && n == 0x0 {
            Some(Instruction::CLS)
        } else if a == 0x0 && x == 0x0 && y == 0xE && n == 0xE {
            Some(Instruction::RET)
        } else if a == 0x0 {
            Some(Instruction::SYS(nnn))
        } else if a == 0x1 {
            Some(Instruction::JP(nnn))
        } else if a == 0x2 {
            Some(Instruction::CALL(nnn))
        } else if a == 0x3 {
            Some(Instruction::SEC(rx, kk))
        } else if a == 0x4 {
            Some(Instruction::SNEC(rx, kk))
        } else if a == 0x5 && n == 0x0 {
            Some(Instruction::SER(rx, ry))
        } else if a == 0x6 {
            Some(Instruction::LDC(rx, kk))
        } else if a == 0x7 {
            Some(Instruction::ADDC(rx, kk))
        } else if a == 0x8 && n == 0x0 {
            Some(Instruction::LDR(rx, ry))
        } else if a == 0x8 && n == 0x1 {
            Some(Instruction::OR(rx, ry))
        } else if a == 0x8 && n == 0x2 {
            Some(Instruction::AND(rx, ry))
        } else if a == 0x8 && n == 0x3 {
            Some(Instruction::XOR(rx, ry))
        } else if a == 0x8 && n == 0x4 {
            Some(Instruction::ADDR(rx, ry))
        } else if a == 0x8 && n == 0x5 {
            Some(Instruction::SUB(rx, ry))
        } else if a == 0x8 && n == 0x6 {
            Some(Instruction::SHR(rx))
        } else if a == 0x8 && n == 0x7 {
            Some(Instruction::SUBN(rx, ry))
        } else if a == 0x8 && n == 0xE {
            Some(Instruction::SHL(rx))
        } else if a == 0x9 && n == 0x0 {
            Some(Instruction::SNE(rx, ry))
        } else if a == 0xA {
            Some(Instruction::LDI(nnn))
        } else if a == 0xB {
            Some(Instruction::JPA(nnn))
        } else if a == 0xC {
            Some(Instruction::RND(rx, kk))
        } else if a == 0xD {
            Some(Instruction::DRW(rx, ry, n as u8))
        } else if a == 0xE && y == 0x9 && n == 0xE {
            Some(Instruction::SKP(rx))
        } else if a == 0xE && y == 0xA && n == 0x1 {
            Some(Instruction::SKNP(rx))
        } else if a == 0xF && y == 0x0 && n == 0x7 {
            Some(Instruction::LDRD(rx))
        } else if a == 0xF && y == 0x0 && n == 0xA {
            Some(Instruction::LDVK(rx))
        } else if a == 0xF && y == 0x1 && n == 0x5 {
            Some(Instruction::LDDR(rx))
        } else if a == 0xF && y == 0x1 && n == 0x8 {
            Some(Instruction::LDSR(rx))
        } else if a == 0xF && y == 0x1 && n == 0xE {
            Some(Instruction::ADDI(rx))
        } else if a == 0xF && y == 0x2 && n == 0x9 {
            Some(Instruction::LDIR(rx))
        } else if a == 0xF && y == 0x3 && n == 0x3 {
            Some(Instruction::LDBR(rx))
        } else if a == 0xF && y == 0x5 && n == 0x5 {
            Some(Instruction::LDRS(rx))
        } else if a == 0xF && y == 0x6 && n == 0x5 {
            Some(Instruction::RDRS(rx))
        } else {
            None
        }
    }

    /// Decodes a 16-bit word.  Decoding is total and deterministic: the
    /// result is exactly `Instruction::spec_new(instruction)` for every
    /// word, with `None` for the bit patterns that name no instruction.
    pub fn new(instruction: u16) -> (decoded: Option<Instruction>)
        ensures
            decoded == Instruction::spec_new(instruction),
    {
        let a = (instruction / 0x1000) as u8;
        let x = ((instruction / 0x100) % 0x10) as u8;
        let y = ((instruction / 0x10) % 0x10) as u8;
        let n = (instruction % 0x10) as u8;
        let kk = (instruction % 0x100) as u8;
        let nnn = instruction % 0x1000;
        if a == 0x0 && x == 0x0 && y == 0xE && n == 0x0 {
            Some(Instruction::CLS)
        } else if a == 0x0 && x == 0x0 && y == 0xE && n == 0xE {
            Some(Instruction::RET)
        } else if a == 0x0 {
            Some(Instruction::SYS(nnn))
        } else if a == 0x1 {
            Some(Instruction::JP(nnn))
        } else if a == 0x2 {
            Some(Instruction::CALL(nnn))
        } else if a == 0x3 {
            Some(Instruction::SEC(Register::new(x), kk))
        } else if a == 0x4 {
            Some(Instruction::SNEC(Register::new(x), kk))
        } else if a == 0x5 && n == 0x0 {
            Some(Instruction::SER(Register::new(x), Register::new(y)))
        } else if a == 0x6 {
            Some(Instruction::LDC(Register::new(x), kk))
        } else if a == 0x7 {
            Some(Instruction::ADDC(Register::new(x), kk))
        } else if a == 0x8 && n == 0x0 {
            Some(Instruction::LDR(Register::new(x), Register::new(y)))
        } else if a == 0x8 && n == 0x1 {
            Some(Instruction::OR(Register::new(x), Register::new(y)))
        } else if a == 0x8 && n == 0x2 {
            Some(Instruction::AND(Register::new(x), Register::new(y)))
        } else if a == 0x8 && n == 0x3 {
            Some(Instruction::XOR(Register::new(x), Register::new(y)))
        } else if a == 0x8 && n == 0x4 {
            Some(Instruction::ADDR(Register::new(x), Register::new(y)))
        } else if a == 0x8 && n == 0x5 {
            Some(Instruction::SUB(Register::new(x), Register::new(y)))
        } else if a == 0x8 && n == 0x6 {
            Some(Instruction::SHR(Register::new(x)))
        } else if a == 0x8 && n == 0x7 {
            Some(Instruction::SUBN(Register::new(x), Register::new(y)))
        } else if a == 0x8 && n == 0xE {
            Some(Instruction::SHL(Register::new(x)))
        } else if a == 0x9 && n == 0x0 {
            Some(Instruction::SNE(Register::new(x), Register::new(y)))
        } else if a == 0xA {
            Some(Instruction::LDI(nnn))
        } else if a == 0xB {
            Some(Instruction::JPA(nnn))
        } else if a == 0xC {
            Some(Instruction::RND(Register::new(x), kk))
        } else if a == 0xD {
            Some(Instruction::DRW(Register::new(x), Register::new(y), n))
        } else if a == 0xE && y == 0x9 && n == 0xE {
            Some(Instruction::SKP(Register::new(x)))
        } else if a == 0xE && y == 0xA && n == 0x1 {
            Some(Instruction::SKNP(Register::new(x)))
        } else if a == 0xF && y == 0x0 && n == 0x7 {
            Some(Instruction::LDRD(Register::new(x)))
        } else if a == 0xF && y == 0x0 && n == 0xA {
            Some(Instruction::LDVK(Register::new(x)))
        } else if a == 0xF && y == 0x1 && n == 0x5 {
            Some(Instruction::LDDR(Register::new(x)))
        } else if a == 0xF && y == 0x1 && n == 0x8 {
            Some(Instruction::LDSR(Register::new(x)))
        } else if a == 0xF && y == 0x1 && n == 0xE {
            Some(Instruction::ADDI(Register::new(x)))
        } else if a == 0xF && y == 0x2 && n == 0x9 {
            Some(Instruction::LDIR(Register::new(x)))
        } else if a == 0xF && y == 0x3 && n == 0x3 {
            Some(Instruction::LDBR(Register::new(x)))
        } else if a == 0xF && y == 0x5 && n == 0x5 {
            Some(Instruction::LDRS(Register::new(x)))
        } else if a == 0xF && y == 0x6 && n == 0x5 {
            Some(Instruction::RDRS(Register::new(x)))
        } else {
            None
        }
    }
}

} // verus!
