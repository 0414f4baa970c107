//! The writer behind a spin lock, as a process-wide console would hold
//! it: a caller that keeps the lock for a whole message can never have
//! another caller's characters interleaved with its own.

use spin::Mutex;
use vga_text::buffer::{BUFFER_HEIGHT, BUFFER_WIDTH};
use vga_text::{Colour, ColourCode, Writer};

fn row_text(writer: &Writer, row: usize) -> String {
    let mut text = String::new();
    for col in 0..BUFFER_WIDTH {
        text.push(writer.cell_at(row, col).ascii as char);
    }
    text.trim_end().to_string()
}

#[test]
fn messages_written_under_one_lock_hold_never_interleave() {
    let console: Mutex<Writer> =
        Mutex::new(Writer::new(ColourCode::new(Colour::LightGrey, Colour::Black)));

    {
        let mut writer = console.lock();
        writer.write_string("first ");
        writer.write_string("message");
        writer.write_new_line();
    }
    {
        let mut writer = console.lock();
        writer.write_string("second ");
        writer.write_string("message");
        writer.write_new_line();
    }

    let writer = console.lock();
    assert_eq!(row_text(&writer, BUFFER_HEIGHT - 3), "first message");
    assert_eq!(row_text(&writer, BUFFER_HEIGHT - 2), "second message");
    assert_eq!(row_text(&writer, BUFFER_HEIGHT - 1), "");
}

#[test]
fn lock_serialises_byte_level_access() {
    let console: Mutex<Writer> =
        Mutex::new(Writer::new(ColourCode::new(Colour::LightGrey, Colour::Black)));

    console.lock().write_byte(b'H');
    console.lock().write_string("i");

    let writer = console.lock();
    assert_eq!(row_text(&writer, BUFFER_HEIGHT - 1), "Hi");
}
