//! The sixteen keys of the keypad and the keys of a keyboard that stand
//! for them.
//!
//! ```text
//! Keypad       Keyboard
//! +-+-+-+-+    +-+-+-+-+
//! |1|2|3|C|    |1|2|3|4|
//! +-+-+-+-+    +-+-+-+-+
//! |4|5|6|D|    |Q|W|E|R|
//! +-+-+-+-+ <= +-+-+-+-+
//! |7|8|9|E|    |A|S|D|F|
//! +-+-+-+-+    +-+-+-+-+
//! |A|0|B|F|    |Z|X|C|V|
//! +-+-+-+-+    +-+-+-+-+
//! ```

use vstd::prelude::*;

verus! {

/// A key of the keyboard, by its position: the sixteen that stand for
/// keypad keys, and one for every other key.
#[derive(Clone, Copy, Debug, PartialEq, Eq, Structural)]
pub enum Scancode {
    Num1,
    Num2,
    Num3,
    Num4,
    Q,
    W,
    E,
    R,
    A,
    S,
    D,
    F,
    Z,
    X,
    C,
    V,
    /// A key that stands for no keypad key.
    Other,
}

/// The keypad key that a keyboard key stands for, if any.
pub open spec fn keypad_value(key: Scancode) -> Option<u8> {
    match key {
        Scancode::Num1 => Some(0x1u8),
        Scancode::Num2 => Some(0x2u8),
        Scancode::Num3 => Some(0x3u8),
        Scancode::Num4 => Some(0xCu8),
        Scancode::Q => Some(0x4u8),
        Scancode::W => Some(0x5u8),
        Scancode::E => Some(0x6u8),
        Scancode::R => Some(0xDu8),
        Scancode::A => Some(0x7u8),
        Scancode::S => Some(0x8u8),
        Scancode::D => Some(0x9u8),
        Scancode::F => Some(0xEu8),
        Scancode::Z => Some(0xAu8),
        Scancode::X => Some(0x0u8),
        Scancode::C => Some(0xBu8),
        Scancode::V => Some(0xFu8),
        Scancode::Other => None,
    }
}

/// Maps a keyboard key to the keypad key that it stands for.
pub fn map_scancode(key: Scancode) -> (value: Option<u8>)
    ensures
        value == keypad_value(key),
        value matches Some(v) ==> v < 16,
{
    Some(
        match key {
            Scancode::Num1 => 0x1,
            Scancode::Num2 => 0x2,
            Scancode::Num3 => 0x3,
            Scancode::Num4 => 0xC,
            Scancode::Q => 0x4,
            Scancode::W => 0x5,
            Scancode::E => 0x6,
            Scancode::R => 0xD,
            Scancode::A => 0x7,
            Scancode::S => 0x8,
            Scancode::D => 0x9,
            Scancode::F => 0xE,
            Scancode::Z => 0xA,
            Scancode::X => 0x0,
            Scancode::C => 0xB,
            Scancode::V => 0xF,
            Scancode::Other => {
                return None;
            },
        },
    )
}

/// Maps a keypad key to the keyboard key that stands for it.
pub fn map_key(key: u8) -> (scancode: Scancode)
    requires
        key < 16,
    ensures
        keypad_value(scancode) == Some(key),
{
    match key {
        0x1 => Scancode::Num1,
        0x2 => Scancode::Num2,
        0x3 => Scancode::Num3,
        0xC => Scancode::Num4,
        0x4 => Scancode::Q,
        0x5 => Scancode::W,
        0x6 => Scancode::E,
        0xD => Scancode::R,
        0x7 => Scancode::A,
        0x8 => Scancode::S,
        0x9 => Scancode::D,
        0xE => Scancode::F,
        0xA => Scancode::Z,
        0x0 => Scancode::X,
        0xB => Scancode::C,
        _ => Scancode::V,
    }
}

/// No two keyboard keys stand for the same keypad key, so the key that
/// `map_key` names is the only one that `map_scancode` maps back.
pub proof fn lemma_keypad_value_injective(a: Scancode, b: Scancode)
    requires
        keypad_value(a) is Some,
        keypad_value(a) == keypad_value(b),
    ensures
        a == b,
{
}

} // verus!
