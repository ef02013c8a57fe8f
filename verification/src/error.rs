//! The error taxonomy of the object store.

use vstd::prelude::*;

verus! {

/// Everything that can go wrong while reading or writing an object.
#[derive(Clone, Copy, Debug, PartialEq, Eq, Structural)]
pub enum ObjError {
    /// No object file exists at the canonical path for the requested key.
    NotFound,
    /// The header is missing its NUL terminator, is not valid UTF-8, or has
    /// no space separating the kind token from the size field.
    Malformed,
    /// The header names a kind token outside the supported set.
    UnknownKind,
    /// The size field is not a valid non-negative decimal integer that fits
    /// in 64 bits.
    InvalidSize,
    /// The payload bytes actually available differ from the declared size.
    SizeMismatch,
    /// The caller asked for a kind-specific action on an object of a
    /// different kind.
    UnsupportedOperation,
    /// A storage or compression layer failed.
    IoFailure,
}

} // verus!
