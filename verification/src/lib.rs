//! Early-boot console and trap-path core: a verified model of a text-mode
//! console writer (grid, cursor, colors, scrolling, leveled output) and of
//! the boot ordering and fault dispatch rules that surround it.

pub mod traps;
pub mod vga_buffer;
