//! The ways in which a decode can fail.

use vstd::prelude::*;

verus! {

/// Why a buffer could not be decoded.
#[derive(Debug, Clone, Copy, PartialEq, Eq, Structural)]
pub enum DecodeError {
    /// Reserved bits of the ID3 flags byte are set.
    InvalidHeaderFlags,
    /// The ID3 major version is not 3.
    UnsupportedVersion,
    /// A byte of a synchsafe size has its most significant bit set.
    InvalidSynchsafeSize,
    /// A frame identifier or a frame's content is not UTF-8.
    InvalidEncoding,
    /// A field, a declared size or an offset reaches past the end of the buffer.
    OutOfRange,
    /// The leading 11 bits of a frame header are not all set.
    BadFrameSync,
    /// The version or the layer of a frame header is the reserved value.
    ReservedField,
    /// The bitrate index is 0 (free format) or 15 (bad).
    InvalidBitrateIndex,
    /// The sampling rate index is 3 (reserved).
    InvalidSampleRateIndex,
    /// The checksum of a protected frame differs from the one it carries.
    ChecksumMismatch,
    /// A bit field of a width outside 1..=32 was asked for.
    UnsupportedFieldWidth,
}

} // verus!
