//! Colours and the packed colour byte attached to every character cell.

use vstd::prelude::*;

verus! {

/// Available colours for displaying a character on the text display.
///
/// The display hardware understands exactly sixteen colours, numbered
/// 0 through 15 in declaration order.
#[derive(Debug, Clone, Copy, PartialEq, Eq, Structural)]
pub enum Colour {
    Black,
    Blue,
    Green,
    Cyan,
    Red,
    Magenta,
    Brown,
    LightGrey,
    DarkGrey,
    LightBlue,
    LightGreen,
    LightCyan,
    LightRed,
    Pink,
    Yellow,
    White,
}

impl Colour {
    /// The 4-bit value the hardware uses for this colour.
    pub open spec fn spec_code(self) -> u8 {
        match self {
            Colour::Black => 0,
            Colour::Blue => 1,
            Colour::Green => 2,
            Colour::Cyan => 3,
            Colour::Red => 4,
            Colour::Magenta => 5,
            Colour::Brown => 6,
            Colour::LightGrey => 7,
            Colour::DarkGrey => 8,
            Colour::LightBlue => 9,
            Colour::LightGreen => 10,
            Colour::LightCyan => 11,
            Colour::LightRed => 12,
            Colour::Pink => 13,
            Colour::Yellow => 14,
            Colour::White => 15,
        }
    }

    /// The 4-bit value the hardware uses for this colour.
    #[verifier::when_used_as_spec(spec_code)]
    pub fn code(self) -> (code: u8)
        ensures
            code == self.spec_code(),
            code < 16,
    {
        match self {
            Colour::Black => 0,
            Colour::Blue => 1,
            Colour::Green => 2,
            Colour::Cyan => 3,
            Colour::Red => 4,
            Colour::Magenta => 5,
            Colour::Brown => 6,
            Colour::LightGrey => 7,
            Colour::DarkGrey => 8,
            Colour::LightBlue => 9,
            Colour::LightGreen => 10,
            Colour::LightCyan => 11,
            Colour::LightRed => 12,
            Colour::Pink => 13,
            Colour::Yellow => 14,
            Colour::White => 15,
        }
    }
}

/// Colour (second) byte of a character cell: the low nibble is the
/// foreground colour and the high nibble is the background colour.
///
/// A `ColourCode` is only ever built from two `Colour` values, so both
/// nibbles always hold valid colour numbers.
#[derive(Debug, Clone, Copy, PartialEq, Eq, Structural)]
pub struct ColourCode {
    code: u8,
}

impl View for ColourCode {
    type V = u8;

    closed spec fn view(&self) -> u8 {
        self.code
    }
}

impl ColourCode {
    /// Packs a foreground and a background colour into one byte,
    /// background in the high nibble, foreground in the low nibble.
    pub fn new(foreground: Colour, background: Colour) -> (cc: ColourCode)
        ensures
            cc@ == background.spec_code() * 16 + foreground.spec_code(),
    {
        let f = foreground.code();
        let b = background.code();
        proof {
            assert((b << 4) | f == b * 16 + f) by (bit_vector)
                requires
                    f < 16,
                    b < 16,
            ;
        }
        ColourCode { code: (b << 4) | f }
    }

    /// The packed byte itself, as the hardware stores it.
    pub fn as_byte(&self) -> (byte: u8)
        ensures
            byte == self@,
    {
        self.code
    }
}

} // verus!
