//! The built-in hexadecimal font: one 5-byte sprite for each digit 0x0..0xF,
//! stored at the bottom of memory in 5-byte slots.

use vstd::prelude::*;

verus! {

/// The number of bytes in one font sprite.
pub const SPRITE_BYTES: usize = 5;

/// The five rows of the built-in sprite for a hexadecimal digit.
pub open spec fn font_rows(digit: int) -> Seq<u8> {
    if digit == 0x0 {
        seq![0xF0u8, 0x90, 0x90, 0x90, 0xF0]
    } else if digit == 0x1 {
        seq![0x20u8, 0x60, 0x20, 0x20, 0x70]
    } else if digit == 0x2 {
        seq![0xF0u8, 0x10, 0xF0, 0x80, 0xF0]
    } else if digit == 0x3 {
        seq![0xF0u8, 0x10, 0xF0, 0x10, 0xF0]
    } else if digit == 0x4 {
        seq![0x90u8, 0x90, 0xF0, 0x10, 0x10]
    } else if digit == 0x5 {
        seq![0xF0u8, 0x80, 0xF0, 0x10, 0xF0]
    } else if digit == 0x6 {
        seq![0xF0u8, 0x80, 0xF0, 0x90, 0xF0]
    } else if digit == 0x7 {
        seq![0xF0u8, 0x10, 0x20, 0x40, 0x40]
    } else if digit == 0x8 {
        seq![0xF0u8, 0x90, 0xF0, 0x90, 0xF0]
    } else if digit == 0x9 {
        seq![0xF0u8, 0x90, 0xF0, 0x10, 0xF0]
    } else if digit == 0xA {
        seq![0xF0u8, 0x90, 0xF0, 0x90, 0x90]
    } else if digit == 0xB {
        seq![0xE0u8, 0x90, 0xE0, 0x90, 0xE0]
    } else if digit == 0xC {
        seq![0xF0u8, 0x80, 0x80, 0x80, 0xF0]
    } else if digit == 0xD {
        seq![0xE0u8, 0x90, 0x90, 0x90, 0xE0]
    } else if digit == 0xE {
        seq![0xF0u8, 0x80, 0xF0, 0x80, 0xF0]
    } else {
        seq![0xF0u8, 0x80, 0xF0, 0x80, 0x80]
    }
}

/// The byte of the font area at offset `offset`, for offsets below 80.
pub open spec fn font_byte(offset: int) -> u8 {
    font_rows(offset / 5)[offset % 5]
}

/// A hexadecimal digit whose glyph is stored in the font area.
#[derive(Clone, Copy, PartialEq, Eq, Structural, Debug)]
pub enum ASCIISprite {
    Zero,
    One,
    Two,
    Three,
    Four,
    Five,
    Six,
    Seven,
    Eight,
    Nine,
    A,
    B,
    C,
    D,
    E,
    F,
}

impl ASCIISprite {
    /// The digit the glyph stands for.
    pub open spec fn idx(self) -> int {
        match self {
            ASCIISprite::Zero => 0,
            ASCIISprite::One => 1,
            ASCIISprite::Two => 2,
            ASCIISprite::Three => 3,
            ASCIISprite::Four => 4,
            ASCIISprite::Five => 5,
            ASCIISprite::Six => 6,
            ASCIISprite::Seven => 7,
            ASCIISprite::Eight => 8,
            ASCIISprite::Nine => 9,
            ASCIISprite::A => 10,
            ASCIISprite::B => 11,
            ASCIISprite::C => 12,
            ASCIISprite::D => 13,
            ASCIISprite::E => 14,
            ASCIISprite::F => 15,
        }
    }

    /// Names the glyph of a hexadecimal digit value.
    pub fn new(sprite: u8) -> (s: ASCIISprite)
        requires
            sprite < 16,
        ensures
            s.idx() == sprite as int,
    {
        match sprite {
            0 => ASCIISprite::Zero,
            1 => ASCIISprite::One,
            2 => ASCIISprite::Two,
            3 => ASCIISprite::Three,
            4 => ASCIISprite::Four,
            5 => ASCIISprite::Five,
            6 => ASCIISprite::Six,
            7 => ASCIISprite::Seven,
            8 => ASCIISprite::Eight,
            9 => ASCIISprite::Nine,
            10 => ASCIISprite::A,
            11 => ASCIISprite::B,
            12 => ASCIISprite::C,
            13 => ASCIISprite::D,
            14 => ASCIISprite::E,
            _ => ASCIISprite::F,
        }
    }
}

/// The memory address where a digit's glyph starts: 5 bytes per glyph,
/// packed from address 0.
pub fn get_location(sprite: ASCIISprite) -> (addr: usize)
    ensures
        addr == 5 * sprite.idx(),
{
    match sprite {
        ASCIISprite::Zero => 0,
        ASCIISprite::One => 5,
        ASCIISprite::Two => 10,
        ASCIISprite::Three => 15,
        ASCIISprite::Four => 20,
        ASCIISprite::Five => 25,
        ASCIISprite::Six => 30,
        ASCIISprite::Seven => 35,
        ASCIISprite::Eight => 40,
        ASCIISprite::Nine => 45,
        ASCIISprite::A => 50,
        ASCIISprite::B => 55,
        ASCIISprite::C => 60,
        ASCIISprite::D => 65,
        ASCIISprite::E => 70,
        ASCIISprite::F => 75,
    }
}

/// A sprite: a bitmap of up to 15 rows, 8 columns each, one byte per row.
pub struct Chip8Sprite {
    bytes: Vec<u8>,
}

impl View for Chip8Sprite {
    type V = Seq<u8>;

    closed spec fn view(&self) -> Seq<u8> {
        self.bytes@
    }
}

impl Chip8Sprite {
    /// Builds a sprite from its row bytes.
    pub fn new(bytes: &[u8]) -> (s: Chip8Sprite)
        ensures
            s@ == bytes@,
    {
        Chip8Sprite { bytes: vstd::slice::slice_to_vec(bytes) }
    }

    /// The row bytes of the sprite.
    pub fn rows(&self) -> (rows: &Vec<u8>)
        ensures
            rows@ == self@,
    {
        &self.bytes
    }

    /// The built-in glyph for the digit 0.
    pub fn zero() -> (s: Chip8Sprite)
        ensures
            s@ == font_rows(0x0),
    {
        let s = Chip8Sprite { bytes: vec![0xF0u8, 0x90, 0x90, 0x90, 0xF0] };
        proof {
            assert(s@ =~= font_rows(0x0));
        }
        s
    }

    /// The built-in glyph for the digit 1.
    pub fn one() -> (s: Chip8Sprite)
        ensures
            s@ == font_rows(0x1),
    {
        let s = Chip8Sprite { bytes: vec![0x20u8, 0x60, 0x20, 0x20, 0x70] };
        proof {
            assert(s@ =~= font_rows(0x1));
        }
        s
    }

    /// The built-in glyph for the digit 2.
    pub fn two() -> (s: Chip8Sprite)
        ensures
            s@ == font_rows(0x2),
    {
        let s = Chip8Sprite { bytes: vec![0xF0u8, 0x10, 0xF0, 0x80, 0xF0] };
        proof {
            assert(s@ =~= font_rows(0x2));
        }
        s
    }

    /// The built-in glyph for the digit 3.
    pub fn three() -> (s: Chip8Sprite)
        ensures
            s@ == font_rows(0x3),
    {
        let s = Chip8Sprite { bytes: vec![0xF0u8, 0x10, 0xF0, 0x10, 0xF0] };
        proof {
            assert(s@ =~= font_rows(0x3));
        }
        s
    }

    /// The built-in glyph for the digit 4.
    pub fn four() -> (s: Chip8Sprite)
        ensures
            s@ == font_rows(0x4),
    {
        let s = Chip8Sprite { bytes: vec![0x90u8, 0x90, 0xF0, 0x10, 0x10] };
        proof {
            assert(s@ =~= font_rows(0x4));
        }
        s
    }

    /// The built-in glyph for the digit 5.
    pub fn five() -> (s: Chip8Sprite)
        ensures
            s@ == font_rows(0x5),
    {
        let s = Chip8Sprite { bytes: vec![0xF0u8, 0x80, 0xF0, 0x10, 0xF0] };
        proof {
            assert(s@ =~= font_rows(0x5));
        }
        s
    }

    /// The built-in glyph for the digit 6.
    pub fn six() -> (s: Chip8Sprite)
        ensures
            s@ == font_rows(0x6),
    {
        let s = Chip8Sprite { bytes: vec![0xF0u8, 0x80, 0xF0, 0x90, 0xF0] };
        proof {
            assert(s@ =~= font_rows(0x6));
        }
        s
    }

    /// The built-in glyph for the digit 7.
    pub fn seven() -> (s: Chip8Sprite)
        ensures
            s@ == font_rows(0x7),
    {
        let s = Chip8Sprite { bytes: vec![0xF0u8, 0x10, 0x20, 0x40, 0x40] };
        proof {
            assert(s@ =~= font_rows(0x7));
        }
        s
    }

    /// The built-in glyph for the digit 8.
    pub fn eight() -> (s: Chip8Sprite)
        ensures
            s@ == font_rows(0x8),
    {
        let s = Chip8Sprite { bytes: vec![0xF0u8, 0x90, 0xF0, 0x90, 0xF0] };
        proof {
            assert(s@ =~= font_rows(0x8));
        }
        s
    }

    /// The built-in glyph for the digit 9.
    pub fn nine() -> (s: Chip8Sprite)
        ensures
            s@ == font_rows(0x9),
    {
        let s = Chip8Sprite { bytes: vec![0xF0u8, 0x90, 0xF0, 0x10, 0xF0] };
        proof {
            assert(s@ =~= font_rows(0x9));
        }
        s
    }

    /// The built-in glyph for the digit A.
    pub fn a() -> (s: Chip8Sprite)
        ensures
            s@ == font_rows(0xA),
    {
        let s = Chip8Sprite { bytes: vec![0xF0u8, 0x90, 0xF0, 0x90, 0x90] };
        proof {
            assert(s@ =~= font_rows(0xA));
        }
        s
    }

    /// The built-in glyph for the digit B.
    pub fn b() -> (s: Chip8Sprite)
        ensures
            s@ == font_rows(0xB),
    {
        let s = Chip8Sprite { bytes: vec![0xE0u8, 0x90, 0xE0, 0x90, 0xE0] };
        proof {
            assert(s@ =~= font_rows(0xB));
        }
        s
    }

    /// The built-in glyph for the digit C.
    pub fn c() -> (s: Chip8Sprite)
        ensures
            s@ == font_rows(0xC),
    {
        let s = Chip8Sprite { bytes: vec![0xF0u8, 0x80, 0x80, 0x80, 0xF0] };
        proof {
            assert(s@ =~= font_rows(0xC));
        }
        s
    }

    /// The built-in glyph for the digit D.
    pub fn d() -> (s: Chip8Sprite)
        ensures
            s@ == font_rows(0xD),
    {
        let s = Chip8Sprite { bytes: vec![0xE0u8, 0x90, 0x90, 0x90, 0xE0] };
        proof {
            assert(s@ =~= font_rows(0xD));
        }
        s
    }

    /// The built-in glyph for the digit E.
    pub fn e() -> (s: Chip8Sprite)
        ensures
            s@ == font_rows(0xE),
    {
        let s = Chip8Sprite { bytes: vec![0xF0u8, 0x80, 0xF0, 0x80, 0xF0] };
        proof {
            assert(s@ =~= font_rows(0xE));
        }
        s
    }

    /// The built-in glyph for the digit F.
    pub fn f() -> (s: Chip8Sprite)
        ensures
            s@ == font_rows(0xF),
    {
        let s = Chip8Sprite { bytes: vec![0xF0u8, 0x80, 0xF0, 0x80, 0x80] };
        proof {
            assert(s@ =~= font_rows(0xF));
        }
        s
    }

    /// The built-in glyph for a hexadecimal digit value.
    pub fn of_digit(digit: u8) -> (s: Chip8Sprite)
        requires
            digit < 16,
        ensures
            s@ == font_rows(digit as int),
            s@.len() == 5,
    {
        match digit {
            0 => Chip8Sprite::zero(),
            1 => Chip8Sprite::one(),
            2 => Chip8Sprite::two(),
            3 => Chip8Sprite::three(),
            4 => Chip8Sprite::four(),
            5 => Chip8Sprite::five(),
            6 => Chip8Sprite::six(),
            7 => Chip8Sprite::seven(),
            8 => Chip8Sprite::eight(),
            9 => Chip8Sprite::nine(),
            10 => Chip8Sprite::a(),
            11 => Chip8Sprite::b(),
            12 => Chip8Sprite::c(),
            13 => Chip8Sprite::d(),
            14 => Chip8Sprite::e(),
            _ => Chip8Sprite::f(),
        }
    }
}

} // verus!
