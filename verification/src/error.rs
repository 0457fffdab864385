//! Error kinds reported by the decoder.
//!
//! Only structural failures abort a parse: an unrecognized container, a
//! missing metadata block, a corrupt header, or an untrustworthy offset.
//! Content-level oddities (unknown type codes, zero denominators, invalid
//! text encodings) are recovered locally and never surface here.

use vstd::prelude::*;

verus! {

/// Why a parse call aborted.
#[derive(Clone, Copy, Debug, PartialEq, Eq, Structural)]
pub enum ExifError {
    /// Neither a JPEG nor a TIFF signature was recognized.
    UnsupportedFormat,
    /// A valid container with no embedded metadata block.
    NoExifData,
    /// The metadata block's header bytes are corrupt.
    MalformedHeader,
    /// A read or an untrusted offset crossed the buffer boundary.
    OutOfBounds,
    /// A directory offset repeated during traversal.
    CyclicDirectory,
    /// Directory nesting exceeded the configured maximum depth.
    DirectoryTooDeep,
}

impl ExifError {
    /// A short human-readable description of the error kind.
    pub fn describe(&self) -> (r: &'static str)
        ensures
            *self is UnsupportedFormat ==> r@ == "unsupported format"@,
            *self is NoExifData ==> r@ == "no exif data"@,
            *self is MalformedHeader ==> r@ == "malformed header"@,
            *self is OutOfBounds ==> r@ == "out of bounds"@,
            *self is CyclicDirectory ==> r@ == "cyclic directory"@,
            *self is DirectoryTooDeep ==> r@ == "directory too deep"@,
    {
        match self {
            ExifError::UnsupportedFormat => "unsupported format",
            ExifError::NoExifData => "no exif data",
            ExifError::MalformedHeader => "malformed header",
            ExifError::OutOfBounds => "out of bounds",
            ExifError::CyclicDirectory => "cyclic directory",
            ExifError::DirectoryTooDeep => "directory too deep",
        }
    }
}

} // verus!
