use vstd::prelude::*;
use vstd::string::*;

verus! {

pub open spec fn is_hex(c: char) -> bool {
    ('0' <= c && c <= '9') || ('a' <= c && c <= 'f') || ('A' <= c && c <= 'F')
}

pub open spec fn hex_value(c: char) -> int {
    if '0' <= c && c <= '9' {
        c as int - '0' as int
    } else if 'a' <= c && c <= 'f' {
        c as int - 'a' as int + 10
    } else {
        c as int - 'A' as int + 10
    }
}

/// The byte written by the two hex digits at `i` and `i + 1`.
pub open spec fn hex_byte(s: Seq<char>, i: int) -> u8 {
    (hex_value(s[i]) * 16 + hex_value(s[i + 1])) as u8
}

/// An RGBA color, one byte per channel.
#[derive(Copy, Clone, Debug, PartialEq, Eq, Structural)]
pub struct Color {
    pub r: u8,
    pub g: u8,
    pub b: u8,
    pub a: u8,
}

/// The color that `rrggbb` or `rrggbbaa` in hex digits names (opaque when the
/// alpha pair is left out); any other text names none.
pub open spec fn color_of(s: Seq<char>) -> Option<Color> {
    if (s.len() == 6 || s.len() == 8) && forall|i: int| 0 <= i < s.len() ==> is_hex(#[trigger] s[i]) {
        Some(
            Color {
                r: hex_byte(s, 0),
                g: hex_byte(s, 2),
                b: hex_byte(s, 4),
                a: if s.len() == 8 { hex_byte(s, 6) } else { 255 },
            },
        )
    } else {
        None
    }
}

fn hex_digit(c: char) -> (r: u8)
    requires
        is_hex(c),
    ensures
        r == hex_value(c),
        r < 16,
{
    if '0' <= c && c <= '9' {
        (c as u32 - '0' as u32) as u8
    } else if 'a' <= c && c <= 'f' {
        (c as u32 - 'a' as u32 + 10) as u8
    } else {
        (c as u32 - 'A' as u32 + 10) as u8
    }
}

fn byte_at(s: &str, i: usize) -> (r: u8)
    requires
        i + 1 < s@.len() <= usize::MAX,
        is_hex(s@[i as int]),
        is_hex(s@[i + 1]),
    ensures
        r == hex_byte(s@, i as int),
{
    let hi = hex_digit(s.get_char(i));
    let lo = hex_digit(s.get_char(i + 1));
    hi * 16 + lo
}

impl Color {
    pub fn new(r: u8, g: u8, b: u8, a: u8) -> (res: Color)
        ensures
            res == (Color { r, g, b, a }),
    {
        Color { r, g, b, a }
    }

    pub fn white() -> (res: Color)
        ensures
            res == (Color { r: 255, g: 255, b: 255, a: 255 }),
    {
        Color { r: 255, g: 255, b: 255, a: 255 }
    }

    /// Reads a color written as hex digits (see [`color_of`]).
    pub fn from_string(s: &str) -> (res: Option<Color>)
        ensures
            res == color_of(s@),
    {
        let len = s.unicode_len();
        if len != 6 && len != 8 {
            return None;
        }
        let mut i: usize = 0;
        while i < len
            invariant
                i <= len,
                len == s@.len(),
                forall|j: int| 0 <= j < i ==> is_hex(#[trigger] s@[j]),
            decreases len - i,
        {
            let c = s.get_char(i);
            if !(('0' <= c && c <= '9') || ('a' <= c && c <= 'f') || ('A' <= c && c <= 'F')) {
                return None;
            }
            i = i + 1;
        }
        let r = byte_at(s, 0);
        let g = byte_at(s, 2);
        let b = byte_at(s, 4);
        let a = if len == 8 {
            byte_at(s, 6)
        } else {
            255
        };
        Some(Color { r, g, b, a })
    }
}

} // verus!
