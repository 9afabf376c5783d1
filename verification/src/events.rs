//! The keypad: which physical key stands for which of the sixteen logical
//! keys, and the snapshot of pressed keys the interpreter reads.

use vstd::prelude::*;

verus! {

/// Number of logical keys, 0x0 to 0xF.
pub const KEY_COUNT: usize = 16;

/// The physical keys of the 4x4 block `1234 / QWER / ASDF / ZXCV`.
#[derive(Clone, Copy, Debug, PartialEq, Eq)]
pub enum Key {
    Num1,
    Num2,
    Num3,
    Num4,
    Q,
    W,
    E,
    R,
    A,
    S,
    D,
    F,
    Z,
    X,
    C,
    V,
}

/// The logical key that a physical key stands for. The block is laid out as
/// `123C / 456D / 789E / A0BF`.
pub open spec fn key_value(key: Key) -> u8 {
    match key {
        Key::Num1 => 0x1,
        Key::Num2 => 0x2,
        Key::Num3 => 0x3,
        Key::Num4 => 0xC,
        Key::Q => 0x4,
        Key::W => 0x5,
        Key::E => 0x6,
        Key::R => 0xD,
        Key::A => 0x7,
        Key::S => 0x8,
        Key::D => 0x9,
        Key::F => 0xE,
        Key::Z => 0xA,
        Key::X => 0x0,
        Key::C => 0xB,
        Key::V => 0xF,
    }
}

/// Whether `key` is the physical key of logical key `value`.
pub open spec fn is_key_of(key: Key, value: u8) -> bool {
    key_value(key) == value
}

/// Whether one of the first `count` entries of `pressed` stands for logical
/// key `value`.
pub open spec fn pressed_among(pressed: Seq<Key>, count: int, value: int) -> bool {
    exists|j: int| 0 <= j < count && #[trigger] key_value(pressed[j]) == value
}

/// The snapshot of the keypad that `pressed` amounts to: position `value` is
/// set exactly when some pressed key stands for it.
pub open spec fn snapshot_of(pressed: Seq<Key>) -> Seq<bool> {
    Seq::new(KEY_COUNT as nat, |value: int| pressed_among(pressed, pressed.len() as int, value))
}

impl Key {
    /// The logical key that this physical key stands for.
    pub fn value(self) -> (value: u8)
        ensures
            value == key_value(self),
            value < KEY_COUNT,
    {
        match self {
            Key::Num1 => 0x1,
            Key::Num2 => 0x2,
            Key::Num3 => 0x3,
            Key::Num4 => 0xC,
            Key::Q => 0x4,
            Key::W => 0x5,
            Key::E => 0x6,
            Key::R => 0xD,
            Key::A => 0x7,
            Key::S => 0x8,
            Key::D => 0x9,
            Key::F => 0xE,
            Key::Z => 0xA,
            Key::X => 0x0,
            Key::C => 0xB,
            Key::V => 0xF,
        }
    }
}

/// What the host's input source reported at its last poll.
pub struct EventDriver {
    /// Whether the host was asked to quit.
    pub quit: bool,
    /// The physical keys held down, in any order, repeats allowed.
    pub pressed: Vec<Key>,
}

impl EventDriver {
    /// A driver to which nothing has been reported: no quit, no key down.
    pub fn new() -> (driver: Self)
        ensures
            !driver.quit,
            driver.pressed@.len() == 0,
    {
        Self { quit: false, pressed: Vec::new() }
    }

    /// The physical key of logical key `vx`: the one key that stands for it
    /// when `vx` is at most 0xF, none above.
    pub fn get_key(&self, vx: u8) -> (key: Option<Key>)
        ensures
            vx < KEY_COUNT <==> key is Some,
            key matches Some(k) ==> is_key_of(k, vx),
    {
        match vx {
            0x1 => Some(Key::Num1),
            0x2 => Some(Key::Num2),
            0x3 => Some(Key::Num3),
            0xc => Some(Key::Num4),
            0x4 => Some(Key::Q),
            0x5 => Some(Key::W),
            0x6 => Some(Key::E),
            0xd => Some(Key::R),
            0x7 => Some(Key::A),
            0x8 => Some(Key::S),
            0x9 => Some(Key::D),
            0xe => Some(Key::F),
            0xa => Some(Key::Z),
            0x0 => Some(Key::X),
            0xb => Some(Key::C),
            0xf => Some(Key::V),
            _ => None,
        }
    }

    /// The keypad snapshot for the interpreter, or `Err` when the host was
    /// asked to quit.
    pub fn pool(&self) -> (polled: Result<[bool; 16], ()>)
        ensures
            self.quit <==> polled is Err,
            polled matches Ok(keys) ==> keys@ == snapshot_of(self.pressed@),
    {
        if self.quit {
            return Err(());
        }
        let mut chip8_keyboard: [bool; 16] = [false; 16];
        let mut j: usize = 0;
        while j < self.pressed.len()
            invariant
                j <= self.pressed@.len(),
                forall|value: int|
                    0 <= value < KEY_COUNT ==> chip8_keyboard@[value] == pressed_among(
                        self.pressed@,
                        j as int,
                        value,
                    ),
            decreases self.pressed@.len() - j,
        {
            let value: u8 = self.pressed[j].value();
            chip8_keyboard[value as usize] = true;
            j += 1;
        }
        Ok(chip8_keyboard)
    }
}

/// Two physical keys that stand for the same logical key are the same key,
/// and every physical key stands for one of the sixteen logical keys: the
/// layout pairs the two sets off one to one.
pub proof fn lemma_layout_is_one_to_one(a: Key, b: Key)
    ensures
        key_value(a) < KEY_COUNT,
        key_value(a) == key_value(b) ==> a == b,
{
}

} // verus!
