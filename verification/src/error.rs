//! The ways in which an operation of this crate can fail.

use vstd::prelude::*;

verus! {

/// A failure of one of the crate's operations.
#[derive(Debug, Clone, Copy, PartialEq, Eq, Structural)]
pub enum Error {
    /// The stream does not begin with the eight signature bytes.
    BadSignature,
    /// Fewer bytes remain than a record's fields need.
    Truncated,
    /// The CRC stored in a record is not the CRC of its type and payload.
    CrcMismatch,
    /// Bytes asked for as text are not text: a payload that is not well-formed
    /// UTF-8, or a chunk type with a byte outside ASCII.
    InvalidUtf8,
    /// A text given as a chunk type is not exactly four ASCII letters.
    InvalidChunkTypeString,
    /// No chunk of the type asked for is present.
    NotFound,
}

} // verus!
