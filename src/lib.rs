//! A text-mode display driver: colours packed into attribute bytes, a grid
//! of volatile two-byte cells, and a writer that fills the last row, wraps
//! and scrolls.

pub mod colour;
pub mod model;
pub mod qemu;
pub mod surface;
pub mod writer;

pub use colour::{Colour, ColourCode};
pub use qemu::QemuExitCode;
pub use surface::{BUFFER_HEIGHT, BUFFER_WIDTH, Buffer, Cell, ScreenChar};
pub use writer::Writer;
