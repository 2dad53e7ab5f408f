use vstd::prelude::*;

verus! {

/// Failures of an explicit seek; iteration itself never fails.
#[derive(Debug, Clone, Copy, PartialEq, Eq, Structural)]
pub enum IterManError {
    /// The requested index is not below the length of the sequence.
    MemoryOutOfBounds { line_index: usize, max_len: usize },
    /// The requested byte offset lies past the end of the stream, or the
    /// stream could not be positioned there.
    StreamOutOfBounds { line_index: usize, bytes_offset: usize, max_len: usize },
}

} // verus!
