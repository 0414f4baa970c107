//! Character cells: the two-byte unit the display stores for every
//! position on the grid.

use vstd::prelude::*;

use crate::colour::ColourCode;

verus! {

/// Byte placed on the grid when a write asks for a character outside
/// the printable range.
pub const UNPRINTABLE_BYTE_SUBSTITUTE: u8 = 0xFE;

/// The newline control byte; it is consumed by the writer and never
/// reaches a cell.
pub const NEWLINE_BYTE: u8 = 0x0A;

/// The blank (space) character byte.
pub const BLANK_BYTE: u8 = 0x20;

/// One cell of the display: a character byte followed by its colour byte.
#[derive(Debug, Clone, Copy, PartialEq, Eq, Structural)]
pub struct ScreenCharacter {
    pub ascii: u8,
    pub colour_code: ColourCode,
}

/// Whether `byte` is in the printable ASCII range the display can render.
pub open spec fn is_printable(byte: u8) -> bool {
    0x20 <= byte <= 0x7E
}

/// What actually lands on the grid for a requested character byte:
/// printable bytes pass through, anything else is replaced by the
/// substitute glyph.
pub open spec fn sanitised(byte: u8) -> u8 {
    if is_printable(byte) {
        byte
    } else {
        UNPRINTABLE_BYTE_SUBSTITUTE
    }
}

/// Whether `byte` may appear in a cell: printable, or the substitute glyph.
pub open spec fn is_renderable(byte: u8) -> bool {
    is_printable(byte) || byte == UNPRINTABLE_BYTE_SUBSTITUTE
}

/// The blank cell a scroll leaves on the fresh bottom row.
pub open spec fn blank_cell(colour: ColourCode) -> ScreenCharacter {
    ScreenCharacter { ascii: BLANK_BYTE, colour_code: colour }
}

} // verus!
