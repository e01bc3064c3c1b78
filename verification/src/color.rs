//! Opaque colours and their hexadecimal notation.

use vstd::prelude::*;
use vstd::string::{StringExecFns, StringSliceAdditionalSpecFns};
use crate::digits::{digit_char, hex_pair, push_hex_pair};

verus! {

/// A colour of three 8-bit channels, with no alpha of its own.
#[derive(Clone, Copy, Debug, PartialEq, Eq, Structural)]
pub struct Color {
    pub red: u8,
    pub green: u8,
    pub blue: u8,
}

/// Why a string is not a colour.
#[derive(Clone, Copy, Debug, PartialEq, Eq, Structural)]
pub enum ColorError {
    /// After the leading `#` signs the string is not six bytes long.
    Length,
    /// One of the six bytes is not a hexadecimal digit.
    Digit,
}

/// The bytes of `s` without its leading `#`, if it has one.
pub open spec fn strip_hash(s: Seq<u8>) -> Seq<u8> {
    if s.len() > 0 && s[0] == 0x23 {
        s.subrange(1, s.len() as int)
    } else {
        s
    }
}

/// Whether `b` is an ASCII hexadecimal digit, in either case.
pub open spec fn is_hex_digit(b: u8) -> bool {
    (0x30 <= b <= 0x39) || (0x41 <= b <= 0x46) || (0x61 <= b <= 0x66)
}

/// The value of the hexadecimal digit `b`.
pub open spec fn hex_value(b: u8) -> int {
    if b <= 0x39 {
        b - 0x30
    } else if b <= 0x46 {
        b - 0x41 + 10
    } else {
        b - 0x61 + 10
    }
}

/// The byte that two hexadecimal digits spell.
pub open spec fn hex_byte(hi: u8, lo: u8) -> u8 {
    (hex_value(hi) * 16 + hex_value(lo)) as u8
}

/// What a byte string means as a colour: six hexadecimal digits after one
/// optional leading `#`, two for each of red, green and blue.
pub open spec fn parse_color(s: Seq<u8>) -> Result<Color, ColorError> {
    let t = strip_hash(s);
    if t.len() != 6 {
        Err(ColorError::Length)
    } else if !(forall|i: int| 0 <= i < 6 ==> is_hex_digit(#[trigger] t[i])) {
        Err(ColorError::Digit)
    } else {
        Ok(
            Color {
                red: hex_byte(t[0], t[1]),
                green: hex_byte(t[2], t[3]),
                blue: hex_byte(t[4], t[5]),
            },
        )
    }
}

/// The notation of a colour with an alpha value: `#`, then two lower-case
/// hexadecimal digits for each of red, green, blue and alpha.
pub open spec fn hex_with_alpha_text(c: Color, alpha: u8) -> Seq<char> {
    seq!['#'] + hex_pair(c.red) + hex_pair(c.green) + hex_pair(c.blue) + hex_pair(alpha)
}

/// The bytes of a text of ASCII characters.
pub open spec fn ascii_bytes(text: Seq<char>) -> Seq<u8> {
    text.map_values(|c: char| c as u8)
}

/// Each digit character is a hexadecimal digit of the value it stands for.
pub proof fn lemma_digit_char_value(n: int)
    requires
        0 <= n < 16,
    ensures
        is_hex_digit(digit_char(n) as u8),
        hex_value(digit_char(n) as u8) == n,
{
}

/// The notation of a colour reads back as that colour, once the two digits
/// of the alpha value are taken off its end.
pub proof fn lemma_notation_reads_back(c: Color, alpha: u8)
    ensures
        parse_color(ascii_bytes(hex_with_alpha_text(c, alpha).take(7))) == Ok::<Color, ColorError>(
            c,
        ),
{
    let text = hex_with_alpha_text(c, alpha);
    let bytes = ascii_bytes(text.take(7));
    let digits = bytes.subrange(1, 7);
    lemma_digit_char_value(c.red as int / 16);
    lemma_digit_char_value(c.red as int % 16);
    lemma_digit_char_value(c.green as int / 16);
    lemma_digit_char_value(c.green as int % 16);
    lemma_digit_char_value(c.blue as int / 16);
    lemma_digit_char_value(c.blue as int % 16);
    assert(bytes.len() == 7 && bytes[0] == 0x23);
    assert(digits[0] == digit_char(c.red as int / 16) as u8);
    assert(digits[1] == digit_char(c.red as int % 16) as u8);
    assert(digits[2] == digit_char(c.green as int / 16) as u8);
    assert(digits[3] == digit_char(c.green as int % 16) as u8);
    assert(digits[4] == digit_char(c.blue as int / 16) as u8);
    assert(digits[5] == digit_char(c.blue as int % 16) as u8);
    assert(strip_hash(bytes) == digits);
}

fn hex_digit_value(b: u8) -> (v: Option<u8>)
    ensures
        v is Some <==> is_hex_digit(b),
        v matches Some(x) ==> x == hex_value(b) && x < 16,
{
    if 0x30 <= b && b <= 0x39 {
        Some(b - 0x30)
    } else if 0x41 <= b && b <= 0x46 {
        Some(b - 0x41 + 10)
    } else if 0x61 <= b && b <= 0x66 {
        Some(b - 0x61 + 10)
    } else {
        None
    }
}

fn hex_pair_value(t: &[u8], at: usize) -> (v: Option<u8>)
    requires
        at + 1 < t@.len(),
    ensures
        v is Some <==> is_hex_digit(t@[at as int]) && is_hex_digit(t@[at + 1]),
        v matches Some(x) ==> x == hex_byte(t@[at as int], t@[at + 1]),
{
    match (hex_digit_value(t[at]), hex_digit_value(t[at + 1])) {
        (Some(hi), Some(lo)) => Some(hi * 16 + lo),
        _ => None,
    }
}

impl Color {
    /// A colour from its three channels.
    pub fn new(red: u8, green: u8, blue: u8) -> (c: Color)
        ensures
            c == (Color { red, green, blue }),
    {
        Color { red, green, blue }
    }

    /// Reads a colour from the bytes of its notation.
    pub fn from_hex_bytes(bytes: &[u8]) -> (r: Result<Color, ColorError>)
        ensures
            r == parse_color(bytes@),
    {
        let n = bytes.len();
        let start: usize = if n > 0 && bytes[0] == 0x23 {
            1
        } else {
            0
        };
        let ghost t = bytes@.subrange(start as int, n as int);
        assert(strip_hash(bytes@) =~= t);
        if n - start != 6 {
            return Err(ColorError::Length);
        }
        let red = hex_pair_value(bytes, start);
        let green = hex_pair_value(bytes, start + 2);
        let blue = hex_pair_value(bytes, start + 4);
        match (red, green, blue) {
            (Some(red), Some(green), Some(blue)) => Ok(Color { red, green, blue }),
            _ => {
                assert(!is_hex_digit(t[0]) || !is_hex_digit(t[1]) || !is_hex_digit(t[2])
                    || !is_hex_digit(t[3]) || !is_hex_digit(t[4]) || !is_hex_digit(t[5]));
                Err(ColorError::Digit)
            },
        }
    }

    /// Reads a colour from its notation: six hexadecimal digits in either
    /// case, after one optional leading `#`.
    pub fn parse(s: &str) -> (r: Result<Color, ColorError>)
        ensures
            r == parse_color(s.spec_bytes()),
    {
        Color::from_hex_bytes(s.as_bytes())
    }

    /// The notation of this colour with the alpha value `alpha`.
    pub fn hex_with_alpha(&self, alpha: u8) -> (s: String)
        ensures
            s@ == hex_with_alpha_text(*self, alpha),
    {
        proof {
            reveal_strlit("#");
        }
        let mut s = String::from_str("#");
        push_hex_pair(&mut s, self.red);
        push_hex_pair(&mut s, self.green);
        push_hex_pair(&mut s, self.blue);
        push_hex_pair(&mut s, alpha);
        assert(s@ =~= hex_with_alpha_text(*self, alpha));
        s
    }
}

} // verus!
