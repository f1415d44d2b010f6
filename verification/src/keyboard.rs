//! The 16-key hexadecimal keypad.
//!
//! The keypad holds the pressed/released state of keys 0x0..0xF.  The
//! surrounding program feeds key transitions in with `set_key`; the
//! executor reads them with `is_pressed` and `first_pressed`.

use vstd::prelude::*;

verus! {

/// The number of keys on the keypad.
pub const KEY_COUNT: usize = 16;

/// One of the sixteen keypad keys.
#[derive(Clone, Copy, PartialEq, Eq, Structural, Debug)]
pub enum Key {
    Zero,
    One,
    Two,
    Three,
    Four,
    Five,
    Six,
    Seven,
    Eight,
    Nine,
    A,
    B,
    C,
    D,
    E,
    F,
}

impl Key {
    /// The key's position on the keypad.
    pub open spec fn idx(self) -> int {
        match self {
            Key::Zero => 0,
            Key::One => 1,
            Key::Two => 2,
            Key::Three => 3,
            Key::Four => 4,
            Key::Five => 5,
            Key::Six => 6,
            Key::Seven => 7,
            Key::Eight => 8,
            Key::Nine => 9,
            Key::A => 10,
            Key::B => 11,
            Key::C => 12,
            Key::D => 13,
            Key::E => 14,
            Key::F => 15,
        }
    }

    /// The key's position, as a usize for indexing.
    pub fn index(self) -> (i: usize)
        ensures
            i == self.idx(),
            i < 16,
    {
        match self {
            Key::Zero => 0,
            Key::One => 1,
            Key::Two => 2,
            Key::Three => 3,
            Key::Four => 4,
            Key::Five => 5,
            Key::Six => 6,
            Key::Seven => 7,
            Key::Eight => 8,
            Key::Nine => 9,
            Key::A => 10,
            Key::B => 11,
            Key::C => 12,
            Key::D => 13,
            Key::E => 14,
            Key::F => 15,
        }
    }
}

/// A value that names a keypad key.
#[allow(non_camel_case_types)]
pub trait toKey {
    /// The keypad position the value names.
    spec fn key_index(&self) -> int;

    /// Converts the value to the key it names.
    fn to_key(&self) -> (k: Key)
        requires
            0 <= self.key_index() < 16,
        ensures
            k.idx() == self.key_index(),
    ;
}

impl toKey for Key {
    open spec fn key_index(&self) -> int {
        self.idx()
    }

    fn to_key(&self) -> (k: Key) {
        *self
    }
}

impl toKey for u8 {
    open spec fn key_index(&self) -> int {
        *self as int
    }

    fn to_key(&self) -> (k: Key) {
        match *self {
            0 => Key::Zero,
            1 => Key::One,
            2 => Key::Two,
            3 => Key::Three,
            4 => Key::Four,
            5 => Key::Five,
            6 => Key::Six,
            7 => Key::Seven,
            8 => Key::Eight,
            9 => Key::Nine,
            10 => Key::A,
            11 => Key::B,
            12 => Key::C,
            13 => Key::D,
            14 => Key::E,
            _ => Key::F,
        }
    }
}

/// The lowest pressed key at or above position `from`, or `None` when no
/// key at or above `from` is pressed.
pub open spec fn first_pressed_key(keys: Seq<bool>, from: int) -> Option<u8>
    decreases 16 - from,
{
    if from < 0 || from >= 16 {
        None
    } else if keys[from] {
        Some(from as u8)
    } else {
        first_pressed_key(keys, from + 1)
    }
}

/// The keypad state: one pressed/released flag per key.
pub struct Chip8Keyboard {
    keys: Vec<bool>,
}

impl View for Chip8Keyboard {
    type V = Seq<bool>;

    closed spec fn view(&self) -> Seq<bool> {
        self.keys@
    }
}

impl Chip8Keyboard {
    /// The keypad always holds exactly 16 key states.
    pub open spec fn wf(&self) -> bool {
        self@.len() == KEY_COUNT
    }

    /// Creates the keypad with every key released.
    pub fn new() -> (keyboard: Chip8Keyboard)
        ensures
            keyboard.wf(),
            forall|j: int| 0 <= j < 16 ==> !keyboard@[j],
    {
        Chip8Keyboard { keys: vec![false; KEY_COUNT] }
    }

    /// Whether the named key is currently pressed.
    pub fn is_pressed<T: toKey>(&self, key: T) -> (pressed: bool)
        requires
            self.wf(),
            0 <= key.key_index() < 16,
        ensures
            pressed == self@[key.key_index()],
    {
        let k = key.to_key();
        self.keys[k.index()]
    }

    /// Records a key press or release reported by the key source.
    pub fn set_key(&mut self, key: u8, pressed: bool)
        requires
            old(self).wf(),
            key < 16,
        ensures
            final(self).wf(),
            final(self)@ == old(self)@.update(key as int, pressed),
    {
        self.keys[key as usize] = pressed;
    }

    /// The lowest-numbered pressed key, if any key is pressed.
    pub fn first_pressed(&self) -> (found: Option<u8>)
        requires
            self.wf(),
        ensures
            found == first_pressed_key(self@, 0),
            match found {
                Some(k) => k < 16 && self@[k as int] && forall|j: int| 0 <= j < k ==> !self@[j],
                None => forall|j: int| 0 <= j < 16 ==> !self@[j],
            },
    {
        let mut k: usize = 0;
        while k < KEY_COUNT
            invariant
                self.wf(),
                k <= KEY_COUNT,
                forall|j: int| 0 <= j < k ==> !self@[j],
                first_pressed_key(self@, 0) == first_pressed_key(self@, k as int),
            decreases KEY_COUNT - k,
        {
            if self.keys[k] {
                return Some(k as u8);
            }
            k += 1;
        }
        None
    }
}

} // verus!
