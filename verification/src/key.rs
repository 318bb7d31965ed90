//! The logical keys of the calculator and their textual form.

use vstd::prelude::*;
use vstd::utf8::is_ascii_chars;

verus! {

/// A logical key. A key has no identity beyond its variant.
///
/// The keypad is laid out as
///
/// ```text
/// 7  8  9  BK .
/// 4  5  6  +  -
/// 1  2  3  *  /
/// <  0  >  =  Fn
/// ```
#[derive(Debug, Copy, Clone, PartialEq, Eq, Structural)]
pub enum Key {
    D0,
    D1,
    D2,
    D3,
    D4,
    D5,
    D6,
    D7,
    D8,
    D9,
    Left,
    Right,
    Backspace,
    Fn,
    Add,
    Sub,
    Mul,
    Div,
    Eq,
    Dot,
}

/// The longest textual form of a key, in characters.
pub const KEY_TEXT_MAX: usize = 9;

impl Key {
    /// The textual form of a key: the name of its variant.
    pub open spec fn text(self) -> Seq<char> {
        match self {
            Key::D0 => "D0"@,
            Key::D1 => "D1"@,
            Key::D2 => "D2"@,
            Key::D3 => "D3"@,
            Key::D4 => "D4"@,
            Key::D5 => "D5"@,
            Key::D6 => "D6"@,
            Key::D7 => "D7"@,
            Key::D8 => "D8"@,
            Key::D9 => "D9"@,
            Key::Left => "Left"@,
            Key::Right => "Right"@,
            Key::Backspace => "Backspace"@,
            Key::Fn => "Fn"@,
            Key::Add => "Add"@,
            Key::Sub => "Sub"@,
            Key::Mul => "Mul"@,
            Key::Div => "Div"@,
            Key::Eq => "Eq"@,
            Key::Dot => "Dot"@,
        }
    }

    /// Whether this is the key that clears the accumulated input.
    pub open spec fn clears(self) -> bool {
        self == Key::Fn
    }

    /// The textual form of the key.
    pub fn name(&self) -> (s: &'static str)
        ensures
            s@ == self.text(),
    {
        match self {
            Key::D0 => "D0",
            Key::D1 => "D1",
            Key::D2 => "D2",
            Key::D3 => "D3",
            Key::D4 => "D4",
            Key::D5 => "D5",
            Key::D6 => "D6",
            Key::D7 => "D7",
            Key::D8 => "D8",
            Key::D9 => "D9",
            Key::Left => "Left",
            Key::Right => "Right",
            Key::Backspace => "Backspace",
            Key::Fn => "Fn",
            Key::Add => "Add",
            Key::Sub => "Sub",
            Key::Mul => "Mul",
            Key::Div => "Div",
            Key::Eq => "Eq",
            Key::Dot => "Dot",
        }
    }

    /// Whether this is the key that clears the accumulated input.
    pub fn is_clear(&self) -> (b: bool)
        ensures
            b == self.clears(),
    {
        matches!(self, Key::Fn)
    }
}

/// Every key's text is plain ASCII, between two and nine characters long.
pub proof fn lemma_key_text_shape(key: Key)
    ensures
        2 <= key.text().len() <= KEY_TEXT_MAX,
        is_ascii_chars(key.text()),
{
    reveal_strlit("D0");
    reveal_strlit("D1");
    reveal_strlit("D2");
    reveal_strlit("D3");
    reveal_strlit("D4");
    reveal_strlit("D5");
    reveal_strlit("D6");
    reveal_strlit("D7");
    reveal_strlit("D8");
    reveal_strlit("D9");
    reveal_strlit("Left");
    reveal_strlit("Right");
    reveal_strlit("Backspace");
    reveal_strlit("Fn");
    reveal_strlit("Add");
    reveal_strlit("Sub");
    reveal_strlit("Mul");
    reveal_strlit("Div");
    reveal_strlit("Eq");
    reveal_strlit("Dot");
}

} // verus!
