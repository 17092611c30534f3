//! The editing core of a line-oriented text editor: a buffer of text lines
//! and the cursor and selection state that moves over it and changes it.

pub mod error;
pub mod boundary;
pub mod buffer;
pub mod diagnostics;
pub mod files;
pub mod laws;
pub mod state;
pub mod text;
pub mod text_input;
