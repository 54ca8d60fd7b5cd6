//! The text-storage core of a small text editor: a gap buffer, the line index
//! derived from it, the caret model, the command interpreter that turns key
//! presses into edits, and the key-repeat scheduler; besides them, colours
//! read from hexadecimal text and the generated theme table.
pub mod color;
pub mod command;
pub mod editor;
pub mod gap_buffer;
pub mod lines;
pub mod repeat;
pub mod theme_table;
