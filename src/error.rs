//! Failures of encoding and decoding.

use vstd::prelude::*;

verus! {

/// Why an encode or decode step failed.
#[derive(Debug, Clone, Copy, PartialEq, Eq, Structural)]
pub enum DgfError {
    /// Block size or coefficient count out of range.
    Configuration,
    /// The stream is shorter than the header, or the payload it announces.
    Truncated,
    /// The leading magic signature does not match.
    BadMagic,
    /// The data-section magic does not match.
    BadDataMagic,
    /// The version tag is not a known version.
    UnknownVersion(u16),
    /// A layout or compression tag holds a value outside its enumeration.
    UnknownTag,
    /// The image compression mode, given by its tag, has no implementation here.
    UnsupportedImageMode(u8),
    /// The post-compression mode, given by its tag, has no implementation here.
    UnsupportedPostMode(u8),
    /// The pixel layout, given by its tag, cannot be encoded.
    UnsupportedPixelMode(u16),
    /// The outside byte compressor failed, or rejected its input.
    Io,
    /// The payload is too large for the header's 32-bit offset fields.
    TooLarge,
    /// The decoded pixel data does not have width * height * channels bytes.
    Reconstruction,
}

} // verus!
