//! Editing core of a terminal text editor: a line buffer with a caret, a
//! scrolling view onto it, and a one-row status line.

pub mod geometry;
pub mod text;
pub mod error;
pub mod lines;
pub mod buffer;
pub mod editarea;
pub mod statusbar;
pub mod editor;
