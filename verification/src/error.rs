//! The ways in which reading an archive can fail.

use vstd::prelude::*;

verus! {

/// A failure met while reading an archive.
///
/// `Stream`, `ShortBlock` and `TruncatedArchive` are structural: once one of
/// them has been reported the archive cannot be read any further.
/// `InvalidOctalDigit` and `InvalidText` concern a single header field.
#[derive(Debug, Clone, Copy, PartialEq, Eq, Structural)]
pub enum TarError {
    /// The underlying stream reported a failure.
    Stream,
    /// A read ended after `got` bytes, which is neither a whole block nor a
    /// clean end of the stream.
    ShortBlock { got: usize },
    /// The stream ended before all the data blocks that a header declares
    /// had been seen.
    TruncatedArchive,
    /// A byte of a numeric field is not one of the digits `'0'` to `'7'`.
    InvalidOctalDigit { byte: u8 },
    /// The bytes of a text field are not valid UTF-8.
    InvalidText,
}

impl TarError {
    /// Whether the error ends the reading of the whole archive.
    pub open spec fn is_structural(self) -> bool {
        self is Stream || self is ShortBlock || self is TruncatedArchive
    }

    /// Whether the error ends the reading of the whole archive, as opposed to
    /// spoiling one field of one header.
    pub fn structural(&self) -> (b: bool)
        ensures
            b == self.is_structural(),
    {
        match self {
            TarError::Stream => true,
            TarError::ShortBlock { .. } => true,
            TarError::TruncatedArchive => true,
            TarError::InvalidOctalDigit { .. } => false,
            TarError::InvalidText => false,
        }
    }
}

} // verus!
