//! The recoverable conditions that the editing core reports.

use vstd::prelude::*;
use crate::geometry::Size;

verus! {

#[derive(Debug, Clone, Copy, PartialEq, Eq, Structural)]
pub enum Error {
    /// The print area does not fit the buffer.
    PrintAreaSizeNotFit,
    /// A caret row at or past the last line: `caret` is the row, `height` the line count.
    CaretOutOfHeight { caret: usize, height: usize },
    /// A caret column past the end of its line: `len` is the line's character count.
    CaretOutOfLen { caret: usize, len: usize },
    /// A scan reached an end of the text without finding what it looked for.
    EndOfFile,
    /// A deletion was asked for before the first character of the buffer.
    DelAtBeginning,
    /// Content of size `buffer_size` does not fit strictly inside `area_size`.
    BufferSizeExceeds { buffer_size: Size, area_size: Size },
}

} // verus!
