//! A verified driver for a fixed-size character-grid text display.
//!
//! The library renders ASCII text onto an 80 by 25 grid of two-byte
//! cells, handling line wrap, scrolling and per-character colour.  Every
//! cell is reached through the `volatile` crate so that no store to the
//! display is elided or reordered; those accesses are the only trusted
//! code here, and everything above them — the cursor, the sanitising of
//! bytes, the scroll — is verified.

pub mod buffer;
pub mod cell;
pub mod colour;
pub mod laws;
pub mod writer;

pub use buffer::Buffer;
pub use cell::ScreenCharacter;
pub use colour::Colour;
pub use colour::ColourCode;
pub use writer::Writer;
