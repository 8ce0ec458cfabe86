//! The ways in which decoding can fail.

use vstd::prelude::*;

verus! {

/// Why the input could not supply the bytes that were asked of it.
#[derive(Debug, Clone, Copy, PartialEq, Eq)]
pub enum IoFailure {
    /// The input was exhausted exactly where a chunk or an event would have
    /// started: nothing is cut off, there is simply no more to decode.
    EndOfInput,
    /// The input stopped inside a chunk or an event.
    Truncated,
}

/// A decoding failure.  No failure is recovered from: the first one ends the
/// decoding of the whole input.
#[derive(Debug, Clone, Copy, PartialEq, Eq)]
pub enum ParseError {
    /// The input ran out.
    IOError(IoFailure),
    /// Four bytes at the start of a chunk that are not the tag of the chunk
    /// that has to start there: no tag at all, or the tag of the other kind.
    UnexpectedTag([u8; 4]),
    /// A format number in the header other than 0, 1 or 2.
    UnexpectedFormat(u16),
    /// A byte below 0x80 where a status byte had to stand, no running status
    /// being in force.
    NotCommand(u8),
    /// A byte of 0x80 or above where a 7-bit data byte had to stand.
    NotData(u8),
    /// A status byte 0xF1..=0xFE other than 0xF7.
    NotSupportedSystemMessage(u8),
}

impl ParseError {
    /// Whether this failure is the harmless one: the input ended where a
    /// chunk or an event would have started.
    pub open spec fn spec_is_eof(&self) -> bool {
        *self == ParseError::IOError(IoFailure::EndOfInput)
    }

    /// Tells the clean end of the input apart from every other failure.
    #[verifier::when_used_as_spec(spec_is_eof)]
    pub fn is_eof(&self) -> (r: bool)
        ensures
            r == self.spec_is_eof(),
    {
        match self {
            ParseError::IOError(failure) => match failure {
                IoFailure::EndOfInput => true,
                _ => false,
            },
            _ => false,
        }
    }
}

} // verus!
