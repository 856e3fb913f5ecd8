pub mod buffer;
pub mod color;
pub mod console;
pub mod screen;
pub mod writer;

pub use buffer::{Buffer, HEIGHT, WIDTH};
pub use color::{Color, ColorCode, ScreenChar};
pub use console::_print;
pub use screen::{NEWLINE, PLACEHOLDER};
pub use writer::Writer;
