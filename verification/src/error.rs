//! Errors reported by the format resolver and the codec.

use vstd::prelude::*;

verus! {

/// Why a carrier could not be resolved, written to, or read from.
#[derive(Clone, Copy, Debug, PartialEq, Eq, Structural)]
pub enum StegError {
    /// The format identifier is not one of the known carrier formats.
    UnsupportedFormat,
    /// The file name does not contain exactly one `.` separator.
    AmbiguousFileType,
    /// The carrier is too small for the length field and the payload bits.
    CapacityExceeded,
    /// The carrier ends before the bits that the decoder has to read.
    Truncated,
    /// A value other than 0 or 1 was given as the bit to store.
    InvalidBitValue,
}

} // verus!
