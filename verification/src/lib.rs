//! The core of an interactive debugger for one traced process: the symbol
//! table of the program, the breakpoints set in it, the classification of its
//! stops, and the reconstruction of its call stack.

pub mod signal;
pub mod table;
pub mod frame_info;
pub mod dwarf_data;
pub mod bytes;
pub mod unwind;
pub mod breakpoint;
pub mod registers;
pub mod process;
pub mod format;
pub mod elf;
pub mod line_info;
pub mod loader;
pub mod location;
pub mod debugger;
pub mod words;
pub mod command;
