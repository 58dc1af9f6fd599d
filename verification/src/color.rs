//! The color model of the text-mode display: a fixed palette of sixteen
//! colors and the packed attribute byte that combines a foreground and a
//! background color.

use vstd::prelude::*;

verus! {

/// One of the sixteen palette colors of the text-mode display.
#[derive(Debug, Clone, Copy, PartialEq, Eq, Structural)]
pub enum Color {
    Black,
    Blue,
    Green,
    Cyan,
    Red,
    Magenta,
    Brown,
    LightGray,
    DarkGray,
    LightBlue,
    LightGreen,
    LightCyan,
    LightRed,
    Pink,
    Yellow,
    White,
}

impl Color {
    /// The fixed four-bit numeric code of this color.
    pub open spec fn spec_code(self) -> u8 {
        match self {
            Color::Black => 0,
            Color::Blue => 1,
            Color::Green => 2,
            Color::Cyan => 3,
            Color::Red => 4,
            Color::Magenta => 5,
            Color::Brown => 6,
            Color::LightGray => 7,
            Color::DarkGray => 8,
            Color::LightBlue => 9,
            Color::LightGreen => 10,
            Color::LightCyan => 11,
            Color::LightRed => 12,
            Color::Pink => 13,
            Color::Yellow => 14,
            Color::White => 15,
        }
    }

    /// Returns the fixed four-bit numeric code of this color.
    #[verifier::when_used_as_spec(spec_code)]
    pub fn code(self) -> (c: u8)
        ensures
            c == self.spec_code(),
            c < 16,
    {
        match self {
            Color::Black => 0,
            Color::Blue => 1,
            Color::Green => 2,
            Color::Cyan => 3,
            Color::Red => 4,
            Color::Magenta => 5,
            Color::Brown => 6,
            Color::LightGray => 7,
            Color::DarkGray => 8,
            Color::LightBlue => 9,
            Color::LightGreen => 10,
            Color::LightCyan => 11,
            Color::LightRed => 12,
            Color::Pink => 13,
            Color::Yellow => 14,
            Color::White => 15,
        }
    }
}

/// A packed attribute byte: the foreground color's code in the low four bits,
/// the background color's code in the high four bits.
#[derive(Debug, Clone, Copy, PartialEq, Eq, Structural)]
pub struct ColorCode(u8);

impl ColorCode {
    /// The packed byte itself.
    pub closed spec fn spec_byte(self) -> u8 {
        self.0
    }

    /// Returns the packed byte itself.
    #[verifier::when_used_as_spec(spec_byte)]
    pub fn byte(self) -> (b: u8)
        ensures
            b == self.spec_byte(),
    {
        self.0
    }

    /// Creates a new `ColorCode` with the given foreground and background
    /// colors. Total over all pairs: the low nibble of the result is the
    /// foreground's code and the high nibble is the background's code, so the
    /// pair that constructed the attribute can always be recovered from it.
    pub fn new(foreground: Color, background: Color) -> (r: ColorCode)
        ensures
            r.spec_byte() == (background.spec_code() << 4) | foreground.spec_code(),
            r.spec_byte() & 0x0f == foreground.spec_code(),
            r.spec_byte() >> 4 == background.spec_code(),
    {
        let f = foreground.code();
        let b = background.code();
        proof {
            assert((b << 4) | f == ((b << 4) | f) && (((b << 4) | f) & 0x0f) == f && (((b << 4)
                | f) >> 4) == b) by (bit_vector)
                requires
                    f < 16 && b < 16,
            ;
        }
        ColorCode((b << 4) | f)
    }
}

} // verus!
