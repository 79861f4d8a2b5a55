//! The error kinds shared by every decoding layer.

use vstd::prelude::*;

verus! {

/// Why a decode attempt failed. Every error is terminal for the single
/// decode call that raised it; the caller decides whether to stop or skip.
#[derive(Clone, Copy, Debug, PartialEq, Eq, Structural)]
pub enum DecodeError {
    /// The first byte of the stream is not the THEADR tag.
    BadFormat,
    /// Fewer bytes were available than a field requires.
    Truncated,
    /// The record checksum invariant was violated.
    BadChecksum,
    /// A record type byte matched none of the known codes.
    UnknownRecordType(u8),
    /// A leaf tag byte matched none of the known leaf tags.
    BadLeafTag(u8),
    /// A value that must lie in a small enumerated set did not.
    FieldOutOfRange,
    /// Length-prefixed bytes were not valid text.
    TextDecodeError,
    /// A recognized but unimplemented field combination.
    Unsupported,
}

} // verus!
