use vstd::prelude::*;

verus! {

/// The first field of a frame header that is out of range.
#[derive(Debug, Clone, Copy, PartialEq, Eq, Structural)]
pub enum HeaderError {
    /// The eleven sync bits are not all set.
    BadSync,
    /// The layer bits are `00`.
    BadLayer,
    /// The bitrate index is 15.
    BadBitrate,
    /// The sampling-rate index is 3, or the version is the reserved one,
    /// which has no sampling-rate table.
    BadSamplingRate,
}

/// Everything that can go wrong while locating and decoding frames.
///
/// Every failure is an ordinary value handed back to the caller; nothing in
/// this crate aborts on malformed input.
#[derive(Debug, Clone, Copy, PartialEq, Eq, Structural)]
pub enum Mp3Error {
    /// The buffer carries neither a leading nor a trailing tag.
    TagNotFound,
    /// Four bytes that should be a frame header are not one.
    InvalidHeader(HeaderError),
    /// The header is valid but its bitrate is free-format, so the length
    /// of the frame cannot be derived from it.
    UnsupportedFreeFormat,
    /// Fewer bytes are available than a structure needs.
    Truncated,
    /// The byte source reported a failure of its own.
    Io,
}

} // verus!
