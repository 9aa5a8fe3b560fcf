//! Driver core for chains of MAX7219 eight-digit LED display controllers.
//!
//! The chips are wired in series and share three lines: data, clock and
//! chip-select. This crate holds the whole protocol: it turns an operation
//! (power, intensity, decode mode, digit values) into the exact sequence of
//! line operations that puts it on the wire. It never touches a pin itself.
//! Each operation returns its sequence as a script, and a [`Transfer`] walks
//! through a script one line operation at a time while the caller drives the
//! pins and reports how each went. The first failure a caller reports ends
//! the transfer.

pub mod chain;
pub mod driver;
pub mod frame;
pub mod glyph;
pub mod registers;
pub mod transfer;
pub mod wire;

pub use driver::MAX7219;
pub use frame::{RegisterWrite, FRAME_CAPACITY, MAX_DIGITS, MAX_DISPLAYS};
pub use glyph::bcd_byte;
pub use registers::{Command, DecodeMode};
pub use transfer::{PinError, Step, Transfer};
pub use wire::{shift_out, Line, PinOp};
