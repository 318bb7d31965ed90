//! A line of text with a fixed capacity, kept in an `arrayvec::ArrayString`.

use arrayvec::ArrayString;
use vstd::prelude::*;
use vstd::utf8::{encode_utf8, is_ascii_chars};

verus! {

/// The number of bytes that a line of text can hold.
pub const LINE_CAPACITY: usize = 64;

/// `arrayvec::ArrayString`, a string in an array of `CAP` bytes. Nothing of its
/// inside is known here: what it holds is spoken of through `held`.
#[verifier::external_type_specification]
#[verifier::external_body]
pub struct ExArrayString<const CAP: usize>(ArrayString<CAP>);

/// The characters that an `ArrayString` holds.
pub uninterp spec fn held(s: ArrayString<64>) -> Seq<char>;

/// `ArrayString::new`: a string that holds nothing.
#[verifier::external_body]
fn array_string_new() -> (s: ArrayString<64>)
    ensures
        held(s) == Seq::<char>::empty(),
{
    ArrayString::new()
}

/// `ArrayString::try_push_str`: the piece is appended whole when its UTF-8
/// form fits into the bytes that are left, and the string is left as it was
/// when it does not. The string never holds more bytes than its capacity.
#[verifier::external_body]
fn array_string_push(s: &mut ArrayString<64>, piece: &str) -> (fits: bool)
    ensures
        fits == (encode_utf8(held(*old(s))).len() + encode_utf8(piece@).len() <= LINE_CAPACITY),
        fits ==> held(*final(s)) == held(*old(s)) + piece@,
        !fits ==> held(*final(s)) == held(*old(s)),
        encode_utf8(held(*final(s))).len() <= LINE_CAPACITY,
{
    s.try_push_str(piece).is_ok()
}

/// `ArrayString::clear`: the string holds nothing afterwards.
#[verifier::external_body]
fn array_string_clear(s: &mut ArrayString<64>)
    ensures
        held(*final(s)) == Seq::<char>::empty(),
{
    s.clear()
}

/// `ArrayString::as_str`: the characters held, as a string slice.
#[verifier::external_body]
fn array_string_text(s: &ArrayString<64>) -> (text: &str)
    ensures
        text@ == held(*s),
{
    s.as_str()
}

/// `u64`'s `to_string`: the number in decimal, without sign or padding.
#[verifier::external_body]
fn decimal_string(n: u64) -> (text: String)
    ensures
        text@ == decimal(n as nat),
{
    n.to_string()
}

/// The number of bytes that a text takes in UTF-8.
pub open spec fn byte_len(text: Seq<char>) -> nat {
    encode_utf8(text).len()
}

/// The character of a decimal digit.
pub open spec fn digit_char(d: nat) -> char
    recommends
        d < 10,
{
    ('0' as u8 + d) as char
}

/// A number written in decimal: its digits, the most significant first, with
/// no leading zero but for zero itself.
pub open spec fn decimal(n: nat) -> Seq<char>
    decreases n,
{
    if n < 10 {
        seq![digit_char(n)]
    } else {
        decimal(n / 10).push(digit_char(n % 10))
    }
}

/// Ten to the power `k`.
pub open spec fn pow10(k: nat) -> nat
    decreases k,
{
    if k == 0 {
        1
    } else {
        10 * pow10((k - 1) as nat)
    }
}

/// A number below ten to the `k` has at most `k` digits, all of them ASCII.
pub proof fn lemma_decimal_shape(n: nat, k: nat)
    requires
        k >= 1,
        n < pow10(k),
    ensures
        1 <= decimal(n).len() <= k,
        is_ascii_chars(decimal(n)),
    decreases k,
{
    if n < 10 {
    } else {
        assert(pow10(1) == 10) by {
            reveal_with_fuel(pow10, 2);
        }
        assert(k >= 2);
        lemma_decimal_shape(n / 10, (k - 1) as nat);
        let head = decimal(n / 10);
        let whole = decimal(n);
        assert forall|i: int| 0 <= i < whole.len() implies '\0' <= #[trigger] whole[i] <= '\u{7f}' by {
            if i < head.len() {
                assert(whole[i] == head[i]);
            }
        }
    }
}

/// A `u64` has at most twenty decimal digits.
pub proof fn lemma_decimal_u64(n: u64)
    ensures
        1 <= decimal(n as nat).len() <= 20,
        is_ascii_chars(decimal(n as nat)),
{
    assert(pow10(20) == 100_000_000_000_000_000_000nat) by {
        reveal_with_fuel(pow10, 21);
    }
    lemma_decimal_shape(n as nat, 20);
}

/// Plain ASCII takes one byte for each character.
pub proof fn lemma_ascii_byte_len(text: Seq<char>)
    requires
        is_ascii_chars(text),
    ensures
        byte_len(text) == text.len(),
{
    vstd::utf8::is_ascii_chars_encode_utf8(text);
}

/// A line of text that holds at most `LINE_CAPACITY` bytes. What does not fit
/// is turned away whole: the line never grows beyond its capacity, and never
/// holds a part of what was pushed.
pub struct Line {
    chars: ArrayString<64>,
}

impl View for Line {
    type V = Seq<char>;

    closed spec fn view(&self) -> Seq<char> {
        held(self.chars)
    }
}

impl Line {
    /// The line is within its capacity.
    pub open spec fn wf(&self) -> bool {
        byte_len(self@) <= LINE_CAPACITY
    }

    /// An empty line.
    pub fn new() -> (line: Line)
        ensures
            line.wf(),
            line@ == Seq::<char>::empty(),
    {
        let line = Line { chars: array_string_new() };
        proof {
            lemma_ascii_byte_len(line@);
        }
        line
    }

    /// Appends `piece` if the whole of it fits, and says whether it did.
    pub fn push_str(&mut self, piece: &str) -> (fits: bool)
        ensures
            final(self).wf(),
            fits == (byte_len(old(self)@) + byte_len(piece@) <= LINE_CAPACITY),
            final(self)@ == if fits {
                old(self)@ + piece@
            } else {
                old(self)@
            },
    {
        array_string_push(&mut self.chars, piece)
    }

    /// Appends `n` in decimal if the whole of it fits, and says whether it did.
    pub fn push_decimal(&mut self, n: u64) -> (fits: bool)
        ensures
            final(self).wf(),
            fits == (byte_len(old(self)@) + decimal(n as nat).len() <= LINE_CAPACITY),
            final(self)@ == if fits {
                old(self)@ + decimal(n as nat)
            } else {
                old(self)@
            },
    {
        let digits = decimal_string(n);
        proof {
            lemma_decimal_u64(n);
            lemma_ascii_byte_len(decimal(n as nat));
        }
        array_string_push(&mut self.chars, digits.as_str())
    }

    /// Empties the line.
    pub fn clear(&mut self)
        ensures
            final(self).wf(),
            final(self)@ == Seq::<char>::empty(),
    {
        array_string_clear(&mut self.chars);
        proof {
            lemma_ascii_byte_len(self@);
        }
    }

    /// The text of the line.
    pub fn as_str(&self) -> (text: &str)
        ensures
            text@ == self@,
    {
        array_string_text(&self.chars)
    }

    /// The number of bytes that the line holds.
    pub fn len(&self) -> (n: usize)
        requires
            self.wf(),
        ensures
            n == byte_len(self@),
    {
        array_string_text(&self.chars).len()
    }

    /// Whether the line holds nothing.
    pub fn is_empty(&self) -> (b: bool)
        ensures
            b == (self@.len() == 0),
    {
        array_string_text(&self.chars).is_empty()
    }
}

} // verus!
