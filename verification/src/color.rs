//! RGBW colours and their eight-digit hexadecimal text form.

use vstd::prelude::*;
use vstd::slice::slice_subrange;
use vstd::utf8::{encode_utf8, is_ascii_chars, is_ascii_chars_encode_utf8};

verus! {

/// One light's colour: red, green, blue and white, eight bits each.
#[derive(Debug, Clone, Copy, PartialEq, Eq, Structural)]
pub struct Color {
    pub red: u8,
    pub green: u8,
    pub blue: u8,
    pub white: u8,
}

/// Why a text was not accepted as a colour. Both variants carry the text as it
/// was given.
#[derive(Debug, Clone, PartialEq, Eq)]
pub enum ColorFormatError {
    /// After the optional prefix, `found` bytes were left instead of eight.
    WrongLength { input: String, found: usize },
    /// Eight bytes were left, but not all of them are hexadecimal digits.
    InvalidDigit { input: String },
}

/// `hex::FromHexError`, the error of `hex::decode`. It is carried through
/// unread: nothing is claimed of what it holds.
#[verifier::external_type_specification]
#[verifier::external_body]
pub struct ExFromHexError(hex::FromHexError);

/// The value of an ASCII hexadecimal digit, in either case.
pub open spec fn hex_digit_value(b: u8) -> Option<u8> {
    if 0x30 <= b <= 0x39 {
        Some((b - 0x30) as u8)
    } else if 0x41 <= b <= 0x46 {
        Some((b - 0x41 + 10) as u8)
    } else if 0x61 <= b <= 0x66 {
        Some((b - 0x61 + 10) as u8)
    } else {
        None
    }
}

/// An even number of bytes, each a hexadecimal digit.
pub open spec fn is_hex_text(text: Seq<u8>) -> bool {
    &&& text.len() % 2 == 0
    &&& forall|i: int| 0 <= i < text.len() ==> hex_digit_value(#[trigger] text[i]) is Some
}

/// The byte that two hexadecimal digits spell, high digit first.
pub open spec fn hex_pair_value(high: u8, low: u8) -> u8 {
    (hex_digit_value(high).unwrap() * 16 + hex_digit_value(low).unwrap()) as u8
}

/// The bytes that a hexadecimal text spells, two digits per byte.
pub open spec fn hex_bytes(text: Seq<u8>) -> Seq<u8> {
    Seq::new(text.len() / 2, |k: int| hex_pair_value(text[2 * k], text[2 * k + 1]))
}

/// How many leading bytes of `text` form the optional prefix: two for `0x`,
/// one for `#`, else none.
pub open spec fn prefix_len(text: Seq<u8>) -> int {
    if text.len() >= 2 && text[0] == 0x30 && text[1] == 0x78 {
        2
    } else if text.len() >= 1 && text[0] == 0x23 {
        1
    } else {
        0
    }
}

/// `text` without its optional prefix.
pub open spec fn strip_prefix(text: Seq<u8>) -> Seq<u8> {
    text.subrange(prefix_len(text), text.len() as int)
}

/// The colour that exactly eight hexadecimal digits spell, in the order red,
/// green, blue, white.
pub open spec fn decode_digits(digits: Seq<u8>) -> Option<Color> {
    if digits.len() == 8 && is_hex_text(digits) {
        let bytes = hex_bytes(digits);
        Some(Color { red: bytes[0], green: bytes[1], blue: bytes[2], white: bytes[3] })
    } else {
        None
    }
}

/// The colour that a text spells, if any: an optional prefix, then eight
/// hexadecimal digits.
pub open spec fn parse_color(text: Seq<u8>) -> Option<Color> {
    decode_digits(strip_prefix(text))
}

/// The lower-case hexadecimal digit of a value below sixteen, as an ASCII byte.
pub open spec fn lower_hex_digit(nibble: u8) -> u8 {
    if nibble < 10 {
        (0x30 + nibble) as u8
    } else {
        (0x61 + nibble - 10) as u8
    }
}

/// The two lower-case hexadecimal digits of a byte, high digit first.
pub open spec fn byte_hex_chars(b: u8) -> Seq<char> {
    seq![lower_hex_digit(b / 16) as char, lower_hex_digit(b % 16) as char]
}

/// The hexadecimal text of a colour: eight lower-case digits.
pub open spec fn color_hex_chars(c: Color) -> Seq<char> {
    byte_hex_chars(c.red) + byte_hex_chars(c.green) + byte_hex_chars(c.blue) + byte_hex_chars(
        c.white,
    )
}

/// Calls `hex::decode` on the bytes given. The contract states that it
/// succeeds exactly on an even number of hexadecimal digits of either case,
/// and that each byte of the result is sixteen times the value of the first
/// digit of its pair plus the value of the second.
#[verifier::external_body]
fn decode_hex(text: &[u8]) -> (r: Result<Vec<u8>, hex::FromHexError>)
    ensures
        r is Ok <==> is_hex_text(text@),
        r is Ok ==> r->Ok_0@ == hex_bytes(text@),
{
    hex::decode(text)
}

/// One lower-case hexadecimal digit as a string.
fn hex_digit_str(nibble: u8) -> (s: &'static str)
    requires
        nibble < 16,
    ensures
        s@ == seq![lower_hex_digit(nibble) as char],
{
    proof {
        reveal_strlit("0");
        reveal_strlit("1");
        reveal_strlit("2");
        reveal_strlit("3");
        reveal_strlit("4");
        reveal_strlit("5");
        reveal_strlit("6");
        reveal_strlit("7");
        reveal_strlit("8");
        reveal_strlit("9");
        reveal_strlit("a");
        reveal_strlit("b");
        reveal_strlit("c");
        reveal_strlit("d");
        reveal_strlit("e");
        reveal_strlit("f");
    }
    let s = match nibble {
        0 => "0",
        1 => "1",
        2 => "2",
        3 => "3",
        4 => "4",
        5 => "5",
        6 => "6",
        7 => "7",
        8 => "8",
        9 => "9",
        10 => "a",
        11 => "b",
        12 => "c",
        13 => "d",
        14 => "e",
        _ => "f",
    };
    assert(s@ =~= seq![lower_hex_digit(nibble) as char]);
    s
}

/// Appends the two hexadecimal digits of `b` to `out`.
fn push_hex_byte(out: &mut String, b: u8)
    ensures
        final(out)@ == old(out)@ + byte_hex_chars(b),
{
    out.append(hex_digit_str(b / 16));
    out.append(hex_digit_str(b % 16));
    assert(out@ =~= old(out)@ + byte_hex_chars(b));
}

impl ColorFormatError {
    /// The text that was refused.
    pub open spec fn input_view(self) -> Seq<char> {
        match self {
            ColorFormatError::WrongLength { input, .. } => input@,
            ColorFormatError::InvalidDigit { input } => input@,
        }
    }

    /// The text that was refused.
    pub fn input(&self) -> (s: &str)
        ensures
            s@ == self.input_view(),
    {
        match self {
            ColorFormatError::WrongLength { input, .. } => input.as_str(),
            ColorFormatError::InvalidDigit { input } => input.as_str(),
        }
    }
}

impl Color {
    /// The colour with the four channels given.
    pub fn new(red: u8, green: u8, blue: u8, white: u8) -> (c: Color)
        ensures
            c == (Color { red, green, blue, white }),
    {
        Color { red, green, blue, white }
    }

    /// All channels zero: the light is off.
    pub open spec fn off() -> Color {
        Color { red: 0, green: 0, blue: 0, white: 0 }
    }

    /// The four channels in transmission order.
    pub open spec fn bytes(self) -> Seq<u8> {
        seq![self.red, self.green, self.blue, self.white]
    }

    /// Reads a colour from its text form: an optional `0x` or `#`, then exactly
    /// eight hexadecimal digits of either case.
    pub fn from_hex(hex_str: &str) -> (r: Result<Color, ColorFormatError>)
        ensures
            r is Ok <==> {
                &&& strip_prefix(encode_utf8(hex_str@)).len() == 8
                &&& is_hex_text(strip_prefix(encode_utf8(hex_str@)))
            },
            match r {
                Ok(c) => parse_color(encode_utf8(hex_str@)) == Some(c),
                Err(e) => {
                    &&& parse_color(encode_utf8(hex_str@)) is None
                    &&& e.input_view() == hex_str@
                    &&& e is WrongLength <==> strip_prefix(encode_utf8(hex_str@)).len() != 8
                    &&& e is WrongLength ==> e->found == strip_prefix(encode_utf8(hex_str@)).len()
                },
            },
    {
        let bytes = hex_str.as_bytes();
        let n: usize = bytes.len();
        let start: usize = if n >= 2 && bytes[0] == 0x30 && bytes[1] == 0x78 {
            2
        } else if n >= 1 && bytes[0] == 0x23 {
            1
        } else {
            0
        };
        let digits = slice_subrange(bytes, start, n);
        if digits.len() != 8 {
            return Err(
                ColorFormatError::WrongLength { input: hex_str.to_owned(), found: digits.len() },
            );
        }
        match decode_hex(digits) {
            Ok(decoded) => Ok(
                Color { red: decoded[0], green: decoded[1], blue: decoded[2], white: decoded[3] },
            ),
            Err(_) => Err(ColorFormatError::InvalidDigit { input: hex_str.to_owned() }),
        }
    }

    /// The four channels in transmission order: red, green, blue, white.
    pub fn to_bytes(&self) -> (b: [u8; 4])
        ensures
            b@ == self.bytes(),
    {
        let b = [self.red, self.green, self.blue, self.white];
        assert(b@ =~= self.bytes());
        b
    }

    /// The text form: eight lower-case hexadecimal digits, no prefix.
    pub fn to_hex(&self) -> (s: String)
        ensures
            s@ == color_hex_chars(*self),
    {
        let mut s = String::new();
        push_hex_byte(&mut s, self.red);
        push_hex_byte(&mut s, self.green);
        push_hex_byte(&mut s, self.blue);
        push_hex_byte(&mut s, self.white);
        assert(s@ =~= color_hex_chars(*self));
        s
    }
}

impl Default for Color {
    /// The default colour is off.
    fn default() -> (c: Color)
        ensures
            c == Color::off(),
    {
        Color { red: 0, green: 0, blue: 0, white: 0 }
    }
}

/// Reading back what `to_hex` prints gives the colour that was printed, so
/// printing, reading and printing again gives the first text.
pub proof fn lemma_hex_round_trip(c: Color)
    ensures
        is_ascii_chars(color_hex_chars(c)),
        parse_color(encode_utf8(color_hex_chars(c))) == Some(c),
        color_hex_chars(parse_color(encode_utf8(color_hex_chars(c))).unwrap()) == color_hex_chars(
            c,
        ),
{
    let chars = color_hex_chars(c);
    assert(chars.len() == 8);
    assert(is_ascii_chars(chars));
    is_ascii_chars_encode_utf8(chars);
    let text = encode_utf8(chars);
    assert(text.len() == 8);
    assert forall|i: int| 0 <= i < 8 implies text[i] == chars[i] as u8 by {}
    assert(strip_prefix(text) =~= text);
    assert(is_hex_text(text));
    let bytes = hex_bytes(text);
    assert(bytes[0] == c.red);
    assert(bytes[1] == c.green);
    assert(bytes[2] == c.blue);
    assert(bytes[3] == c.white);
}

/// A `0x` and a `#` in front of the same digits read alike, and as the bare
/// digits do wherever these do not begin with a prefix of their own.
pub proof fn lemma_prefix_ignored(digits: Seq<u8>)
    ensures
        parse_color(seq![0x30u8, 0x78u8] + digits) == decode_digits(digits),
        parse_color(seq![0x23u8] + digits) == decode_digits(digits),
        prefix_len(digits) == 0 ==> parse_color(digits) == decode_digits(digits),
        is_hex_text(digits) ==> prefix_len(digits) == 0,
{
    assert(strip_prefix(seq![0x30u8, 0x78u8] + digits) =~= digits);
    assert(strip_prefix(seq![0x23u8] + digits) =~= digits);
    if prefix_len(digits) == 0 {
        assert(strip_prefix(digits) =~= digits);
    }
    if is_hex_text(digits) && digits.len() >= 1 {
        assert(hex_digit_value(digits[0]) is Some);
        if digits.len() >= 2 {
            assert(hex_digit_value(digits[1]) is Some);
        }
    }
}

} // verus!
