use vga_text::buffer::{BUFFER_HEIGHT, BUFFER_WIDTH};
use vga_text::cell::{NEWLINE_BYTE, UNPRINTABLE_BYTE_SUBSTITUTE};
use vga_text::{Colour, ColourCode, Writer};

fn fresh_writer() -> Writer {
    Writer::new(ColourCode::new(Colour::LightCyan, Colour::Black))
}

#[test]
fn colour_codes_count_up_from_black() {
    let colours = [
        Colour::Black,
        Colour::Blue,
        Colour::Green,
        Colour::Cyan,
        Colour::Red,
        Colour::Magenta,
        Colour::Brown,
        Colour::LightGrey,
        Colour::DarkGrey,
        Colour::LightBlue,
        Colour::LightGreen,
        Colour::LightCyan,
        Colour::LightRed,
        Colour::Pink,
        Colour::Yellow,
        Colour::White,
    ];
    for (expected, colour) in colours.iter().enumerate() {
        assert_eq!(colour.code(), expected as u8);
    }
}

#[test]
fn colour_code_packs_nibbles() {
    assert_eq!(ColourCode::new(Colour::LightCyan, Colour::Black).as_byte(), 0x0B);
    assert_eq!(ColourCode::new(Colour::White, Colour::Blue).as_byte(), 0x1F);
    assert_eq!(ColourCode::new(Colour::Black, Colour::White).as_byte(), 0xF0);
}

#[test]
fn new_writer_shows_a_blank_screen() {
    let writer = fresh_writer();
    assert_eq!(writer.cursor_column(), 0);
    for row in 0..BUFFER_HEIGHT {
        for col in 0..BUFFER_WIDTH {
            let cell = writer.cell_at(row, col);
            assert_eq!(cell.ascii, b' ');
            assert_eq!(cell.colour_code, writer.colour());
        }
    }
}

#[test]
fn printable_byte_lands_at_cursor() {
    let mut writer = fresh_writer();
    writer.write_byte(b'A');
    let cell = writer.cell_at(BUFFER_HEIGHT - 1, 0);
    assert_eq!(cell.ascii, b'A');
    assert_eq!(cell.colour_code, writer.colour());
    assert_eq!(writer.cursor_column(), 1);
}

#[test]
fn every_printable_byte_round_trips() {
    for byte in 0x20..=0x7Eu8 {
        let mut writer = fresh_writer();
        writer.write_byte(byte);
        let cell = writer.cell_at(BUFFER_HEIGHT - 1, 0);
        assert_eq!(cell.ascii, byte);
        assert_eq!(cell.colour_code, writer.colour());
    }
}

#[test]
fn unprintable_bytes_become_the_substitute_glyph() {
    for byte in [0x00u8, 0x01, 0x09, 0x1F, 0x7F, 0x80, 0xB5, 0xFF] {
        let mut writer = fresh_writer();
        writer.write_byte(byte);
        let cell = writer.cell_at(BUFFER_HEIGHT - 1, 0);
        assert_eq!(cell.ascii, UNPRINTABLE_BYTE_SUBSTITUTE);
    }
}

#[test]
fn substitute_glyph_itself_passes_through() {
    let mut writer = fresh_writer();
    writer.write_byte(UNPRINTABLE_BYTE_SUBSTITUTE);
    assert_eq!(writer.cell_at(BUFFER_HEIGHT - 1, 0).ascii, UNPRINTABLE_BYTE_SUBSTITUTE);
}

#[test]
fn filling_a_row_then_one_more_scrolls_exactly_once() {
    let mut writer = fresh_writer();
    for _ in 0..BUFFER_WIDTH {
        writer.write_byte(b'x');
    }
    // The full row is still the bottom row: no scroll has happened yet.
    assert_eq!(writer.cursor_column(), BUFFER_WIDTH);
    for col in 0..BUFFER_WIDTH {
        assert_eq!(writer.cell_at(BUFFER_HEIGHT - 1, col).ascii, b'x');
    }
    writer.write_byte(b'y');
    // One scroll: the x-row moved up one row, the y starts the fresh row.
    assert_eq!(writer.cursor_column(), 1);
    assert_eq!(writer.cell_at(BUFFER_HEIGHT - 1, 0).ascii, b'y');
    for col in 0..BUFFER_WIDTH {
        assert_eq!(writer.cell_at(BUFFER_HEIGHT - 2, col).ascii, b'x');
    }
    for col in 1..BUFFER_WIDTH {
        assert_eq!(writer.cell_at(BUFFER_HEIGHT - 1, col).ascii, b' ');
    }
}

#[test]
fn scroll_shifts_every_row_up_and_blanks_the_bottom() {
    let mut writer = fresh_writer();
    writer.write_string("abc");
    writer.write_new_line();
    for (col, expected) in [b'a', b'b', b'c'].iter().enumerate() {
        assert_eq!(writer.cell_at(BUFFER_HEIGHT - 2, col).ascii, *expected);
    }
    for col in 0..BUFFER_WIDTH {
        let cell = writer.cell_at(BUFFER_HEIGHT - 1, col);
        assert_eq!(cell.ascii, b' ');
        assert_eq!(cell.colour_code, writer.colour());
    }
    writer.write_new_line();
    for (col, expected) in [b'a', b'b', b'c'].iter().enumerate() {
        assert_eq!(writer.cell_at(BUFFER_HEIGHT - 3, col).ascii, *expected);
    }
}

#[test]
fn newline_mid_row_resets_column_and_keeps_characters() {
    let mut writer = fresh_writer();
    writer.write_string("ab");
    assert_eq!(writer.cursor_column(), 2);
    writer.write_byte(NEWLINE_BYTE);
    assert_eq!(writer.cursor_column(), 0);
    assert_eq!(writer.cell_at(BUFFER_HEIGHT - 2, 0).ascii, b'a');
    assert_eq!(writer.cell_at(BUFFER_HEIGHT - 2, 1).ascii, b'b');
}

#[test]
fn short_printable_string_round_trips_on_the_bottom_row() {
    let message = "Hello, world!";
    let mut writer = fresh_writer();
    writer.write_string(message);
    assert_eq!(writer.cursor_column(), message.len());
    for (col, expected) in message.bytes().enumerate() {
        let cell = writer.cell_at(BUFFER_HEIGHT - 1, col);
        assert_eq!(cell.ascii, expected);
        assert_eq!(cell.colour_code, writer.colour());
    }
    // No scroll: everything above the bottom row is still blank.
    for row in 0..BUFFER_HEIGHT - 1 {
        for col in 0..BUFFER_WIDTH {
            assert_eq!(writer.cell_at(row, col).ascii, b' ');
        }
    }
}

#[test]
fn multibyte_characters_are_substituted_per_byte() {
    let mut writer = fresh_writer();
    writer.write_string("wörld");
    let expected = [
        b'w',
        UNPRINTABLE_BYTE_SUBSTITUTE,
        UNPRINTABLE_BYTE_SUBSTITUTE,
        b'r',
        b'l',
        b'd',
    ];
    assert_eq!(writer.cursor_column(), expected.len());
    for (col, byte) in expected.iter().enumerate() {
        assert_eq!(writer.cell_at(BUFFER_HEIGHT - 1, col).ascii, *byte);
    }
}

#[test]
fn embedded_newline_splits_a_string_across_rows() {
    let mut writer = fresh_writer();
    writer.write_string("hi\nyo");
    assert_eq!(writer.cell_at(BUFFER_HEIGHT - 2, 0).ascii, b'h');
    assert_eq!(writer.cell_at(BUFFER_HEIGHT - 2, 1).ascii, b'i');
    assert_eq!(writer.cell_at(BUFFER_HEIGHT - 1, 0).ascii, b'y');
    assert_eq!(writer.cell_at(BUFFER_HEIGHT - 1, 1).ascii, b'o');
    assert_eq!(writer.cursor_column(), 2);
}

#[test]
fn long_string_wraps_onto_the_next_row() {
    let mut writer = fresh_writer();
    let long: String = "z".repeat(BUFFER_WIDTH + 3);
    writer.write_string(&long);
    assert_eq!(writer.cursor_column(), 3);
    for col in 0..BUFFER_WIDTH {
        assert_eq!(writer.cell_at(BUFFER_HEIGHT - 2, col).ascii, b'z');
    }
    for col in 0..3 {
        assert_eq!(writer.cell_at(BUFFER_HEIGHT - 1, col).ascii, b'z');
    }
}
