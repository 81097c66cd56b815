//! A text-console driver for a memory-mapped character grid: colour
//! attributes, the grid of cells accessed by ordered loads and stores, the
//! writer that appends text at the bottom row and scrolls, and the
//! lock-guarded entry points shared by every caller.

pub mod color;
pub mod console;
pub mod grid;
pub mod laws;
pub mod writer;

pub use color::{Color, ColorCode};
pub use grid::{Buffer, ScreenChar, BUFFER_HEIGHT, BUFFER_WIDTH};
pub use writer::Writer;
