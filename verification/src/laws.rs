//! Properties of the writer's state transitions, proved once and for
//! all inputs: where a written byte lands, when scrolls happen, and what
//! a scroll does to the grid.

use vstd::prelude::*;

use crate::buffer::BUFFER_HEIGHT;
use crate::buffer::BUFFER_WIDTH;
use crate::cell::NEWLINE_BYTE;
use crate::cell::UNPRINTABLE_BYTE_SUBSTITUTE;
use crate::cell::ScreenCharacter;
use crate::cell::blank_cell;
use crate::cell::is_printable;
use crate::writer::WriterModel;
use crate::writer::spec_byte_scrolls;
use crate::writer::spec_bytes_scrolls;
use crate::writer::spec_new_line;
use crate::writer::spec_write_byte;
use crate::writer::spec_write_bytes;
use crate::writer::wf_model;

verus! {

/// Writing a printable byte places exactly that byte, in the active
/// colour, at the cursor's target column of the bottom row, and
/// advances the cursor past it.
pub proof fn lemma_write_printable_byte(s: WriterModel, byte: u8)
    requires
        wf_model(s),
        is_printable(byte),
    ensures
        ({
            let target: int = if s.col >= BUFFER_WIDTH {
                0
            } else {
                s.col as int
            };
            let t = spec_write_byte(s, byte);
            &&& t.grid[BUFFER_HEIGHT - 1][target] == (ScreenCharacter {
                ascii: byte,
                colour_code: s.colour,
            })
            &&& t.col == target + 1
            &&& t.colour == s.colour
        }),
{
}

/// Writing a byte that is neither printable nor a newline places the
/// substitute glyph, never the byte itself, at the cursor's target
/// column of the bottom row.
pub proof fn lemma_write_unprintable_byte(s: WriterModel, byte: u8)
    requires
        wf_model(s),
        !is_printable(byte),
        byte != NEWLINE_BYTE,
    ensures
        ({
            let target: int = if s.col >= BUFFER_WIDTH {
                0
            } else {
                s.col as int
            };
            let t = spec_write_byte(s, byte);
            &&& t.grid[BUFFER_HEIGHT - 1][target] == (ScreenCharacter {
                ascii: UNPRINTABLE_BYTE_SUBSTITUTE,
                colour_code: s.colour,
            })
            &&& t.col == target + 1
            &&& t.colour == s.colour
        }),
{
}

/// Writing a run of printable bytes that fits on the rest of the bottom
/// row triggers no scroll, advances the cursor by the run's length,
/// writes the bytes in order after the cursor, and touches nothing else.
pub proof fn lemma_write_printable_run(s: WriterModel, bytes: Seq<u8>)
    requires
        wf_model(s),
        s.col + bytes.len() <= BUFFER_WIDTH,
        forall|i: int| 0 <= i < bytes.len() ==> is_printable(#[trigger] bytes[i]),
    ensures
        ({
            let t = spec_write_bytes(s, bytes);
            &&& wf_model(t)
            &&& t.col == s.col + bytes.len()
            &&& t.colour == s.colour
            &&& spec_bytes_scrolls(s, bytes) == 0
            &&& forall|r: int| 0 <= r < BUFFER_HEIGHT - 1 ==> #[trigger] t.grid[r] == s.grid[r]
            &&& forall|c: int|
                0 <= c < s.col ==> #[trigger] t.grid[BUFFER_HEIGHT - 1][c] == s.grid[BUFFER_HEIGHT
                    - 1][c]
            &&& forall|c: int|
                s.col + bytes.len() <= c < BUFFER_WIDTH ==> #[trigger] t.grid[BUFFER_HEIGHT - 1][c]
                    == s.grid[BUFFER_HEIGHT - 1][c]
            &&& forall|i: int|
                0 <= i < bytes.len() ==> #[trigger] t.grid[BUFFER_HEIGHT - 1][s.col + i]
                    == (ScreenCharacter { ascii: bytes[i], colour_code: s.colour })
        }),
    decreases bytes.len(),
{
    if bytes.len() > 0 {
        let t = spec_write_bytes(s, bytes);
        let s1 = spec_write_byte(s, bytes[0]);
        assert(is_printable(bytes[0]));
        assert(s1.grid == s.grid.update(
            BUFFER_HEIGHT - 1,
            s.grid[BUFFER_HEIGHT - 1].update(
                s.col as int,
                ScreenCharacter { ascii: bytes[0], colour_code: s.colour },
            ),
        ));
        assert(wf_model(s1));
        assert(forall|i: int|
            0 <= i < bytes.drop_first().len() ==> is_printable(#[trigger] bytes.drop_first()[i]));
        lemma_write_printable_run(s1, bytes.drop_first());
        let t1 = spec_write_bytes(s1, bytes.drop_first());
        assert(t == t1);
        assert forall|c: int| 0 <= c < s.col implies #[trigger] t.grid[BUFFER_HEIGHT - 1][c]
            == s.grid[BUFFER_HEIGHT - 1][c] by {
            assert(t1.grid[BUFFER_HEIGHT - 1][c] == s1.grid[BUFFER_HEIGHT - 1][c]);
        }
        assert forall|c: int|
            s.col + bytes.len() <= c < BUFFER_WIDTH implies #[trigger] t.grid[BUFFER_HEIGHT - 1][c]
            == s.grid[BUFFER_HEIGHT - 1][c] by {
            assert(t1.grid[BUFFER_HEIGHT - 1][c] == s1.grid[BUFFER_HEIGHT - 1][c]);
        }
        assert forall|i: int|
            0 <= i < bytes.len() implies #[trigger] t.grid[BUFFER_HEIGHT - 1][s.col + i]
            == (ScreenCharacter { ascii: bytes[i], colour_code: s.colour }) by {
            if i == 0 {
                let col0 = s.col as int;
                assert(t1.grid[BUFFER_HEIGHT - 1][col0] == s1.grid[BUFFER_HEIGHT - 1][col0]);
                assert(s1.grid[BUFFER_HEIGHT - 1][s.col as int] == (ScreenCharacter {
                    ascii: bytes[0],
                    colour_code: s.colour,
                }));
            } else {
                assert(t1.grid[BUFFER_HEIGHT - 1][s1.col + (i - 1)] == (ScreenCharacter {
                    ascii: bytes.drop_first()[i - 1],
                    colour_code: s1.colour,
                }));
                assert(bytes.drop_first()[i - 1] == bytes[i]);
                assert(s1.col + (i - 1) == s.col + i);
            }
        }
    }
}

/// Writing a byte sequence and then one more byte triggers the scrolls
/// of the sequence plus whatever the final byte triggers from the state
/// the sequence left behind.
pub proof fn lemma_scrolls_snoc(s: WriterModel, bytes: Seq<u8>, byte: u8)
    ensures
        spec_bytes_scrolls(s, bytes.push(byte)) == spec_bytes_scrolls(s, bytes)
            + spec_byte_scrolls(spec_write_bytes(s, bytes), byte),
    decreases bytes.len(),
{
    let extended = bytes.push(byte);
    assert(extended.len() == bytes.len() + 1);
    if bytes.len() == 0 {
        assert(extended[0] == byte);
        assert(extended.drop_first() =~= Seq::<u8>::empty());
        assert(spec_bytes_scrolls(s, extended) == spec_byte_scrolls(s, byte)
            + spec_bytes_scrolls(spec_write_byte(s, byte), extended.drop_first()));
        assert(spec_bytes_scrolls(spec_write_byte(s, byte), extended.drop_first()) == 0);
        assert(spec_write_bytes(s, bytes) == s);
    } else {
        assert(extended[0] == bytes[0]);
        assert(extended.drop_first() =~= bytes.drop_first().push(byte));
        let s1 = spec_write_byte(s, bytes[0]);
        lemma_scrolls_snoc(s1, bytes.drop_first(), byte);
        assert(spec_bytes_scrolls(s, extended) == spec_byte_scrolls(s, bytes[0])
            + spec_bytes_scrolls(s1, extended.drop_first()));
        assert(spec_bytes_scrolls(s1, extended.drop_first()) == spec_bytes_scrolls(
            s1,
            bytes.drop_first().push(byte),
        ));
        assert(spec_write_bytes(s, bytes) == spec_write_bytes(s1, bytes.drop_first()));
        assert(spec_bytes_scrolls(s, bytes) == spec_byte_scrolls(s, bytes[0])
            + spec_bytes_scrolls(s1, bytes.drop_first()));
    }
}

/// Filling the bottom row with exactly `BUFFER_WIDTH` printable bytes
/// triggers no scroll and leaves the cursor one past the last column;
/// one more printable byte then triggers exactly one scroll and lands at
/// column 0 of the fresh bottom row.
pub proof fn lemma_line_wrap(s: WriterModel, bytes: Seq<u8>, byte: u8)
    requires
        wf_model(s),
        s.col == 0,
        bytes.len() == BUFFER_WIDTH,
        forall|i: int| 0 <= i < bytes.len() ==> is_printable(#[trigger] bytes[i]),
        is_printable(byte),
    ensures
        ({
            let mid = spec_write_bytes(s, bytes);
            let t = spec_write_byte(mid, byte);
            &&& spec_bytes_scrolls(s, bytes) == 0
            &&& mid.col == BUFFER_WIDTH
            &&& spec_byte_scrolls(mid, byte) == 1
            &&& spec_bytes_scrolls(s, bytes.push(byte)) == 1
            &&& t.grid[BUFFER_HEIGHT - 1][0] == (ScreenCharacter {
                ascii: byte,
                colour_code: s.colour,
            })
            &&& t.col == 1
        }),
{
    lemma_write_printable_run(s, bytes);
    lemma_scrolls_snoc(s, bytes, byte);
    let mid = spec_write_bytes(s, bytes);
    lemma_write_printable_byte(mid, byte);
}

/// A scroll moves every row up by one — row `r - 1` of the new grid is
/// row `r` of the old grid — and leaves a bottom row of blank cells in
/// the active colour, with the cursor at column 0.
pub proof fn lemma_scroll_shifts_rows(s: WriterModel)
    requires
        wf_model(s),
    ensures
        ({
            let t = spec_new_line(s);
            &&& t.col == 0
            &&& t.colour == s.colour
            &&& forall|r: int| 1 <= r < BUFFER_HEIGHT ==> #[trigger] t.grid[r - 1] == s.grid[r]
            &&& forall|c: int|
                0 <= c < BUFFER_WIDTH ==> #[trigger] t.grid[BUFFER_HEIGHT - 1][c] == blank_cell(
                    s.colour,
                )
        }),
{
}

/// A newline written with the cursor inside the row triggers one scroll
/// and resets the cursor to column 0; nothing already written is lost —
/// every old row, the bottom one included, survives one row higher.
pub proof fn lemma_newline_resets_column(s: WriterModel)
    requires
        wf_model(s),
        0 < s.col < BUFFER_WIDTH,
    ensures
        ({
            let t = spec_write_byte(s, NEWLINE_BYTE);
            &&& spec_byte_scrolls(s, NEWLINE_BYTE) == 1
            &&& t.col == 0
            &&& t.grid[BUFFER_HEIGHT - 2] == s.grid[BUFFER_HEIGHT - 1]
            &&& forall|r: int| 1 <= r < BUFFER_HEIGHT ==> #[trigger] t.grid[r - 1] == s.grid[r]
        }),
{
    lemma_scroll_shifts_rows(s);
    assert(spec_write_byte(s, NEWLINE_BYTE).grid[BUFFER_HEIGHT - 1 - 1] == s.grid[BUFFER_HEIGHT
        - 1]);
}

/// Round trip: a printable string shorter than the row, written with the
/// cursor at column 0, reappears byte for byte at the start of the
/// bottom row, with no scroll and every other cell untouched.
pub proof fn lemma_round_trip(s: WriterModel, bytes: Seq<u8>)
    requires
        wf_model(s),
        s.col == 0,
        bytes.len() < BUFFER_WIDTH,
        forall|i: int| 0 <= i < bytes.len() ==> is_printable(#[trigger] bytes[i]),
    ensures
        ({
            let t = spec_write_bytes(s, bytes);
            &&& spec_bytes_scrolls(s, bytes) == 0
            &&& t.col == bytes.len()
            &&& forall|i: int|
                0 <= i < bytes.len() ==> #[trigger] t.grid[BUFFER_HEIGHT - 1][i]
                    == (ScreenCharacter { ascii: bytes[i], colour_code: s.colour })
            &&& forall|r: int| 0 <= r < BUFFER_HEIGHT - 1 ==> #[trigger] t.grid[r] == s.grid[r]
            &&& forall|c: int|
                bytes.len() <= c < BUFFER_WIDTH ==> #[trigger] t.grid[BUFFER_HEIGHT - 1][c]
                    == s.grid[BUFFER_HEIGHT - 1][c]
        }),
{
    lemma_write_printable_run(s, bytes);
    let t = spec_write_bytes(s, bytes);
    assert forall|i: int| 0 <= i < bytes.len() implies #[trigger] t.grid[BUFFER_HEIGHT - 1][i]
        == (ScreenCharacter { ascii: bytes[i], colour_code: s.colour }) by {
        assert(s.col + i == i);
        assert(t.grid[BUFFER_HEIGHT - 1][s.col + i] == (ScreenCharacter {
            ascii: bytes[i],
            colour_code: s.colour,
        }));
    }
}

} // verus!
