//! The writer: a cursor and colour over the grid buffer, with byte- and
//! string-level output, line wrap and scrolling.
//!
//! New characters always land on the bottom row; a scroll shifts every
//! row up by one, discards the old top row and blanks the bottom one.

use vstd::prelude::*;
use vstd::string::StringSliceAdditionalSpecFns;

use crate::buffer::BUFFER_HEIGHT;
use crate::buffer::BUFFER_WIDTH;
use crate::buffer::Buffer;
use crate::cell::BLANK_BYTE;
use crate::cell::NEWLINE_BYTE;
use crate::cell::UNPRINTABLE_BYTE_SUBSTITUTE;
use crate::cell::ScreenCharacter;
use crate::cell::blank_cell;
use crate::cell::is_renderable;
use crate::cell::sanitised;
use crate::colour::ColourCode;

verus! {

/// The writer's whole observable state: the grid's cells, the cursor
/// column on the bottom row, and the active colour.
pub struct WriterModel {
    pub grid: Seq<Seq<ScreenCharacter>>,
    pub col: nat,
    pub colour: ColourCode,
}

/// The grid has the display's dimensions and the cursor is at most one
/// past the last column.
pub open spec fn wf_model(s: WriterModel) -> bool {
    &&& s.grid.len() == BUFFER_HEIGHT
    &&& forall|r: int| 0 <= r < BUFFER_HEIGHT ==> (#[trigger] s.grid[r]).len() == BUFFER_WIDTH
    &&& s.col <= BUFFER_WIDTH
}

/// Every cell of the grid holds a renderable character byte.
pub open spec fn grid_renderable(grid: Seq<Seq<ScreenCharacter>>) -> bool {
    forall|r: int, c: int|
        0 <= r < grid.len() && 0 <= c < grid[r].len() ==> is_renderable(
            (#[trigger] grid[r][c]).ascii,
        )
}

/// A whole row of blank cells in the given colour.
pub open spec fn blank_row(colour: ColourCode) -> Seq<ScreenCharacter> {
    Seq::new(BUFFER_WIDTH as nat, |c: int| blank_cell(colour))
}

/// The grid after one scroll: each row becomes the row that was below
/// it, the old top row is discarded, and the bottom row is blanked in
/// the given colour.
pub open spec fn scrolled_grid(grid: Seq<Seq<ScreenCharacter>>, colour: ColourCode) -> Seq<
    Seq<ScreenCharacter>,
> {
    Seq::new(
        BUFFER_HEIGHT as nat,
        |r: int|
            if r < BUFFER_HEIGHT - 1 {
                grid[r + 1]
            } else {
                blank_row(colour)
            },
    )
}

/// The state after a scroll-and-reset: rows shifted up, bottom row
/// blanked, cursor back at column 0.
pub open spec fn spec_new_line(s: WriterModel) -> WriterModel {
    WriterModel { grid: scrolled_grid(s.grid, s.colour), col: 0, colour: s.colour }
}

/// The state after placing one non-newline byte: scroll first if the
/// bottom row is full, then put the sanitised byte at the cursor in the
/// active colour and advance the cursor.
pub open spec fn spec_put_byte(s: WriterModel, byte: u8) -> WriterModel {
    let s1 = if s.col >= BUFFER_WIDTH {
        spec_new_line(s)
    } else {
        s
    };
    WriterModel {
        grid: s1.grid.update(
            BUFFER_HEIGHT - 1,
            s1.grid[BUFFER_HEIGHT - 1].update(
                s1.col as int,
                ScreenCharacter { ascii: sanitised(byte), colour_code: s.colour },
            ),
        ),
        col: s1.col + 1,
        colour: s.colour,
    }
}

/// The state after writing one byte: a newline scrolls, anything else is
/// placed on the bottom row.
pub open spec fn spec_write_byte(s: WriterModel, byte: u8) -> WriterModel {
    if byte == NEWLINE_BYTE {
        spec_new_line(s)
    } else {
        spec_put_byte(s, byte)
    }
}

/// The state after writing a sequence of bytes, first to last.
pub open spec fn spec_write_bytes(s: WriterModel, bytes: Seq<u8>) -> WriterModel
    decreases bytes.len(),
{
    if bytes.len() == 0 {
        s
    } else {
        spec_write_bytes(spec_write_byte(s, bytes[0]), bytes.drop_first())
    }
}

/// How many scroll events writing one byte triggers from state `s`:
/// one for a newline, one for a wrap when the bottom row is full,
/// none otherwise.
pub open spec fn spec_byte_scrolls(s: WriterModel, byte: u8) -> nat {
    if byte == NEWLINE_BYTE {
        1
    } else if s.col >= BUFFER_WIDTH {
        1
    } else {
        0
    }
}

/// How many scroll events writing a byte sequence triggers from state `s`.
pub open spec fn spec_bytes_scrolls(s: WriterModel, bytes: Seq<u8>) -> nat
    decreases bytes.len(),
{
    if bytes.len() == 0 {
        0
    } else {
        spec_byte_scrolls(s, bytes[0]) + spec_bytes_scrolls(
            spec_write_byte(s, bytes[0]),
            bytes.drop_first(),
        )
    }
}

/// Writer to the text display.
pub struct Writer {
    column_position: usize,
    colour_code: ColourCode,
    buffer: Buffer,
}

impl View for Writer {
    type V = WriterModel;

    closed spec fn view(&self) -> WriterModel {
        WriterModel {
            grid: self.buffer@,
            col: self.column_position as nat,
            colour: self.colour_code,
        }
    }
}

impl Writer {
    /// Well-formed: the grid has the display's dimensions, the cursor is
    /// within bounds, and no cell holds an unrenderable byte.
    pub open spec fn wf(&self) -> bool {
        &&& wf_model(self@)
        &&& grid_renderable(self@.grid)
    }

    /// A writer over a fresh, fully blanked grid, cursor at column 0.
    pub fn new(colour_code: ColourCode) -> (writer: Writer)
        ensures
            writer.wf(),
            writer@.col == 0,
            writer@.colour == colour_code,
            writer@.grid.len() == BUFFER_HEIGHT,
            forall|r: int, c: int|
                0 <= r < BUFFER_HEIGHT && 0 <= c < BUFFER_WIDTH ==> #[trigger] writer@.grid[r][c]
                    == blank_cell(colour_code),
    {
        let buffer = Buffer::new(ScreenCharacter { ascii: BLANK_BYTE, colour_code });
        Writer { column_position: 0, colour_code, buffer }
    }

    /// Replace all characters in `row` with blank cells in the active colour.
    fn clear_row(&mut self, row: usize)
        requires
            old(self).buffer.wf(),
            row < BUFFER_HEIGHT,
        ensures
            final(self).buffer.wf(),
            final(self)@.grid == old(self)@.grid.update(row as int, blank_row(old(self)@.colour)),
            final(self)@.col == old(self)@.col,
            final(self)@.colour == old(self)@.colour,
    {
        let blank = ScreenCharacter { ascii: BLANK_BYTE, colour_code: self.colour_code };
        let ghost g0 = self@.grid;
        let mut col: usize = 0;
        while col < BUFFER_WIDTH
            invariant
                self.buffer.wf(),
                self.colour_code == old(self).colour_code,
                self.column_position == old(self).column_position,
                row < BUFFER_HEIGHT,
                col <= BUFFER_WIDTH,
                blank == blank_cell(old(self)@.colour),
                g0 == old(self)@.grid,
                g0.len() == self@.grid.len(),
                forall|r: int| 0 <= r < BUFFER_HEIGHT && r != row ==> #[trigger] self@.grid[r]
                    == g0[r],
                self@.grid[row as int].len() == BUFFER_WIDTH,
                forall|c: int| 0 <= c < col ==> #[trigger] self@.grid[row as int][c] == blank,
                forall|c: int|
                    col <= c < BUFFER_WIDTH ==> #[trigger] self@.grid[row as int][c]
                        == g0[row as int][c],
            decreases BUFFER_WIDTH - col,
        {
            self.buffer.write(row, col, blank);
            col += 1;
        }
        proof {
            assert(self@.grid[row as int] =~= blank_row(old(self)@.colour));
            assert(self@.grid =~= g0.update(row as int, blank_row(old(self)@.colour)));
        }
    }

    /// Scroll-and-reset: shift every row up by one, blank the bottom row
    /// in the active colour, and move the cursor to column 0.
    pub fn write_new_line(&mut self)
        requires
            old(self).wf(),
        ensures
            final(self).wf(),
            final(self)@ == spec_new_line(old(self)@),
    {
        let ghost g0 = self@.grid;
        let mut row: usize = 1;
        while row < BUFFER_HEIGHT
            invariant
                self.buffer.wf(),
                self.colour_code == old(self).colour_code,
                self.column_position == old(self).column_position,
                g0 == old(self)@.grid,
                g0.len() == BUFFER_HEIGHT,
                forall|r: int| 0 <= r < BUFFER_HEIGHT ==> (#[trigger] g0[r]).len() == BUFFER_WIDTH,
                1 <= row <= BUFFER_HEIGHT,
                forall|r: int| 0 <= r < row - 1 ==> #[trigger] self@.grid[r] == g0[r + 1],
                forall|r: int| row - 1 <= r < BUFFER_HEIGHT ==> #[trigger] self@.grid[r] == g0[r],
            decreases BUFFER_HEIGHT - row,
        {
            let mut col: usize = 0;
            while col < BUFFER_WIDTH
                invariant
                    self.buffer.wf(),
                    self.colour_code == old(self).colour_code,
                    self.column_position == old(self).column_position,
                    g0 == old(self)@.grid,
                    g0.len() == BUFFER_HEIGHT,
                    forall|r: int| 0 <= r < BUFFER_HEIGHT ==> (#[trigger] g0[r]).len()
                        == BUFFER_WIDTH,
                    1 <= row < BUFFER_HEIGHT,
                    col <= BUFFER_WIDTH,
                    forall|r: int| 0 <= r < row - 1 ==> #[trigger] self@.grid[r] == g0[r + 1],
                    self@.grid[row - 1].len() == BUFFER_WIDTH,
                    forall|c: int|
                        0 <= c < col ==> #[trigger] self@.grid[row - 1][c] == g0[row as int][c],
                    forall|c: int|
                        col <= c < BUFFER_WIDTH ==> #[trigger] self@.grid[row - 1][c]
                            == g0[row - 1][c],
                    forall|r: int| row <= r < BUFFER_HEIGHT ==> #[trigger] self@.grid[r] == g0[r],
                decreases BUFFER_WIDTH - col,
            {
                let character = self.buffer.read(row, col);
                self.buffer.write(row - 1, col, character);
                col += 1;
            }
            proof {
                assert(self@.grid[row - 1] =~= g0[row as int]);
            }
            row += 1;
        }
        self.clear_row(BUFFER_HEIGHT - 1);
        self.column_position = 0;
        proof {
            assert(self@.grid =~= scrolled_grid(g0, old(self)@.colour));
            assert(self@ == spec_new_line(old(self)@));
            assert forall|r: int, c: int|
                0 <= r < self@.grid.len() && 0 <= c < self@.grid[r].len() implies is_renderable(
                (#[trigger] self@.grid[r][c]).ascii,
            ) by {
                if r < BUFFER_HEIGHT - 1 {
                    assert(self@.grid[r][c] == g0[r + 1][c]);
                } else {
                    assert(self@.grid[r][c] == blank_cell(old(self)@.colour));
                }
            }
        }
    }

    /// Write one byte: a newline scrolls and resets the cursor; any
    /// other byte is sanitised and placed on the bottom row at the
    /// cursor (after a scroll if the row is full), and the cursor
    /// advances.
    pub fn write_byte(&mut self, byte: u8)
        requires
            old(self).wf(),
        ensures
            final(self).wf(),
            final(self)@ == spec_write_byte(old(self)@, byte),
    {
        if byte == NEWLINE_BYTE {
            self.write_new_line();
        } else {
            if self.column_position >= BUFFER_WIDTH {
                self.write_new_line();
            }
            let ghost s1 = self@;
            let row = BUFFER_HEIGHT - 1;
            let ascii = if 0x20 <= byte && byte <= 0x7E {
                byte
            } else {
                UNPRINTABLE_BYTE_SUBSTITUTE
            };
            let cell = ScreenCharacter { ascii, colour_code: self.colour_code };
            self.buffer.write(row, self.column_position, cell);
            self.column_position = self.column_position + 1;
            proof {
                assert(self@ == spec_put_byte(old(self)@, byte));
                assert forall|r: int, c: int|
                    0 <= r < self@.grid.len() && 0 <= c < self@.grid[r].len() implies is_renderable(
                    (#[trigger] self@.grid[r][c]).ascii,
                ) by {
                    if !(r == row && c == s1.col) {
                        assert(self@.grid[r][c] == s1.grid[r][c]);
                    }
                }
            }
        }
    }

    /// Write every byte of `string`: printable bytes and newlines pass
    /// through unchanged, anything else is written as the substitute
    /// glyph.
    pub fn write_string(&mut self, string: &str)
        requires
            old(self).wf(),
        ensures
            final(self).wf(),
            final(self)@ == spec_write_bytes(old(self)@, string.spec_bytes()),
    {
        let bytes = string.as_bytes();
        let ghost s0 = self@;
        let mut i: usize = 0;
        while i < bytes.len()
            invariant
                self.wf(),
                bytes@ == string.spec_bytes(),
                i <= bytes@.len(),
                self@ == spec_write_bytes(s0, bytes@.take(i as int)),
            decreases bytes@.len() - i,
        {
            let ghost pre = self@;
            let byte = bytes[i];
            if (0x20 <= byte && byte <= 0x7E) || byte == NEWLINE_BYTE {
                self.write_byte(byte);
            } else {
                self.write_byte(UNPRINTABLE_BYTE_SUBSTITUTE);
                proof {
                    assert(spec_write_byte(pre, UNPRINTABLE_BYTE_SUBSTITUTE) == spec_write_byte(
                        pre,
                        byte,
                    ));
                }
            }
            proof {
                assert(bytes@.take(i + 1).drop_last() =~= bytes@.take(i as int));
                assert(bytes@.take(i + 1).last() == bytes@[i as int]);
                lemma_write_bytes_snoc(s0, bytes@.take(i as int), bytes@[i as int]);
                assert(bytes@.take(i as int).push(bytes@[i as int]) =~= bytes@.take(i + 1));
            }
            i += 1;
        }
        proof {
            assert(bytes@.take(bytes@.len() as int) =~= bytes@);
        }
    }

    /// Read the cell currently at `row`, `col`.
    pub fn cell_at(&self, row: usize, col: usize) -> (cell: ScreenCharacter)
        requires
            self.wf(),
            row < BUFFER_HEIGHT,
            col < BUFFER_WIDTH,
        ensures
            cell == self@.grid[row as int][col as int],
    {
        self.buffer.read(row, col)
    }

    /// The column the next character will be placed at, unless a scroll
    /// intervenes first.
    pub fn cursor_column(&self) -> (col: usize)
        ensures
            col == self@.col,
    {
        self.column_position
    }

    /// The colour every newly written character receives.
    pub fn colour(&self) -> (colour: ColourCode)
        ensures
            colour == self@.colour,
    {
        self.colour_code
    }
}

/// Writing `bytes` and then one more byte is the same as writing the
/// extended sequence in one go.
pub proof fn lemma_write_bytes_snoc(s: WriterModel, bytes: Seq<u8>, byte: u8)
    ensures
        spec_write_bytes(s, bytes.push(byte)) == spec_write_byte(spec_write_bytes(s, bytes), byte),
    decreases bytes.len(),
{
    let extended = bytes.push(byte);
    assert(extended.len() == bytes.len() + 1);
    if bytes.len() == 0 {
        assert(extended[0] == byte);
        assert(extended.drop_first() =~= Seq::<u8>::empty());
        assert(spec_write_bytes(s, extended) == spec_write_bytes(
            spec_write_byte(s, byte),
            extended.drop_first(),
        ));
        assert(spec_write_bytes(spec_write_byte(s, byte), extended.drop_first()) == spec_write_byte(
            s,
            byte,
        ));
        assert(spec_write_bytes(s, bytes) == s);
    } else {
        assert(extended[0] == bytes[0]);
        assert(extended.drop_first() =~= bytes.drop_first().push(byte));
        let s1 = spec_write_byte(s, bytes[0]);
        lemma_write_bytes_snoc(s1, bytes.drop_first(), byte);
        assert(spec_write_bytes(s, extended) == spec_write_bytes(s1, extended.drop_first()));
        assert(spec_write_bytes(s1, extended.drop_first()) == spec_write_bytes(
            s1,
            bytes.drop_first().push(byte),
        ));
        assert(spec_write_bytes(s, bytes) == spec_write_bytes(s1, bytes.drop_first()));
    }
}

} // verus!
