//! Container sniffing: detect JPEG vs. TIFF and locate the
//! TIFF-structured metadata block.
//!
//! A JPEG is recognized by its `FFD8` signature; its segment markers are
//! scanned until an APP1 segment whose payload begins with `Exif\0\0`.
//! A TIFF is recognized by its `II*\0` / `MM\0*` signature and is its own
//! metadata block.

use vstd::prelude::*;

use crate::bytes::spec_u16_at;
use crate::bytes::read_u16;
use crate::bytes::subvec;
use crate::error::ExifError;
use crate::model::ByteOrder;
use crate::model::ContainerKind;

verus! {

/// The buffer starts with the JPEG signature `FFD8`.
pub open spec fn is_jpeg(s: Seq<u8>) -> bool {
    s.len() >= 2 && s[0] == 0xFF && s[1] == 0xD8
}

/// The buffer starts with a TIFF signature, `II*\0` or `MM\0*`.
pub open spec fn is_tiff(s: Seq<u8>) -> bool {
    s.len() >= 4 && ((s[0] == 0x49 && s[1] == 0x49 && s[2] == 0x2A && s[3] == 0x00) || (s[0]
        == 0x4D && s[1] == 0x4D && s[2] == 0x00 && s[3] == 0x2A))
}

/// The six bytes at `p` spell the APP1 payload marker `Exif\0\0`.
pub open spec fn is_exif_payload(s: Seq<u8>, p: int) -> bool {
    s[p] == 0x45 && s[p + 1] == 0x78 && s[p + 2] == 0x69 && s[p + 3] == 0x66 && s[p + 4] == 0x00
        && s[p + 5] == 0x00
}

/// What a scan of the JPEG segment markers finds.
pub enum ScanOutcome {
    /// An APP1/Exif segment; the TIFF block is `s[start..end]`.
    Found { start: int, end: int },
    /// End of image, start of scan data, or end of buffer: no metadata.
    NoExif,
    /// A byte where a marker should stand is not a marker.
    Malformed,
    /// A segment length crosses the buffer boundary.
    OutOfBounds,
}

/// The segment scan, one marker at a time from `pos`.
///
/// Standalone markers (`01`, `D0`-`D7`) carry no length; `D9` (end of
/// image) and `DA` (start of scan) end the search. Every other marker
/// carries a big-endian length that includes its own two bytes. An APP1
/// segment is the match only when its payload begins with `Exif\0\0`;
/// the block starts after those six bytes.
pub open spec fn spec_jpeg_scan(s: Seq<u8>, pos: int) -> ScanOutcome
    decreases s.len() - pos,
{
    if pos + 2 > s.len() {
        ScanOutcome::NoExif
    } else if s[pos] != 0xFF {
        ScanOutcome::Malformed
    } else {
        let m = s[pos + 1];
        if m == 0xD9 || m == 0xDA {
            ScanOutcome::NoExif
        } else if m == 0x01 || (0xD0 <= m && m <= 0xD7) {
            spec_jpeg_scan(s, pos + 2)
        } else if pos + 4 > s.len() {
            ScanOutcome::OutOfBounds
        } else {
            let l = spec_u16_at(s, pos + 2, ByteOrder::Big) as int;
            if l < 2 {
                ScanOutcome::Malformed
            } else if pos + 2 + l > s.len() {
                ScanOutcome::OutOfBounds
            } else if m == 0xE1 && l >= 8 && is_exif_payload(s, pos + 4) {
                ScanOutcome::Found { start: pos + 10, end: pos + 2 + l }
            } else {
                spec_jpeg_scan(s, pos + 2 + l)
            }
        }
    }
}

/// Walk the JPEG segment markers and return the byte range of the
/// TIFF block inside the first APP1/Exif segment.
pub fn find_exif_segment(data: &Vec<u8>) -> (r: Result<(usize, usize), ExifError>)
    requires
        is_jpeg(data@),
    ensures
        match spec_jpeg_scan(data@, 2) {
            ScanOutcome::Found { start, end } => (r matches Ok(p) && p.0 == start && p.1 == end
                && 2 <= start <= end <= data@.len()),
            ScanOutcome::NoExif => r == Err::<(usize, usize), ExifError>(ExifError::NoExifData),
            ScanOutcome::Malformed => r == Err::<(usize, usize), ExifError>(
                ExifError::MalformedHeader,
            ),
            ScanOutcome::OutOfBounds => r == Err::<(usize, usize), ExifError>(
                ExifError::OutOfBounds,
            ),
        },
{
    let len = data.len();
    let mut pos: usize = 2;
    loop
        invariant
            is_jpeg(data@),
            len == data@.len(),
            2 <= pos <= len + 2,
            spec_jpeg_scan(data@, pos as int) == spec_jpeg_scan(data@, 2),
        decreases len + 2 - pos,
    {
        if pos > len - 2 {
            return Err(ExifError::NoExifData);
        }
        let b = data[pos];
        if b != 0xFF {
            return Err(ExifError::MalformedHeader);
        }
        let m = data[pos + 1];
        if m == 0xD9 || m == 0xDA {
            return Err(ExifError::NoExifData);
        }
        if m == 0x01 || (0xD0 <= m && m <= 0xD7) {
            pos = pos + 2;
            continue;
        }
        let l_raw = match read_u16(data, pos + 2, ByteOrder::Big) {
            Ok(v) => v,
            Err(e) => {
                return Err(e);
            },
        };
        let l = l_raw as usize;
        if l < 2 {
            return Err(ExifError::MalformedHeader);
        }
        if l > len - (pos + 2) {
            return Err(ExifError::OutOfBounds);
        }
        if m == 0xE1 && l >= 8 && data[pos + 4] == 0x45 && data[pos + 5] == 0x78 && data[pos + 6]
            == 0x69 && data[pos + 7] == 0x66 && data[pos + 8] == 0x00 && data[pos + 9] == 0x00 {
            return Ok((pos + 10, pos + 2 + l));
        }
        pos = pos + 2 + l;
    }
}

/// Detect the container and copy out its TIFF-structured metadata block.
pub fn sniff(data: &Vec<u8>) -> (r: Result<(ContainerKind, Vec<u8>), ExifError>)
    ensures
        !is_jpeg(data@) && !is_tiff(data@) ==> r == Err::<(ContainerKind, Vec<u8>), ExifError>(
            ExifError::UnsupportedFormat,
        ),
        is_tiff(data@) ==> (r matches Ok(p) && p.0 == ContainerKind::Tiff && p.1@ == data@),
        is_jpeg(data@) ==> match spec_jpeg_scan(data@, 2) {
            ScanOutcome::Found { start, end } => (r matches Ok(p) && p.0 == ContainerKind::Jpeg
                && p.1@ == data@.subrange(start, end)),
            ScanOutcome::NoExif => r == Err::<(ContainerKind, Vec<u8>), ExifError>(
                ExifError::NoExifData,
            ),
            ScanOutcome::Malformed => r == Err::<(ContainerKind, Vec<u8>), ExifError>(
                ExifError::MalformedHeader,
            ),
            ScanOutcome::OutOfBounds => r == Err::<(ContainerKind, Vec<u8>), ExifError>(
                ExifError::OutOfBounds,
            ),
        },
{
    let len = data.len();
    if len >= 2 && data[0] == 0xFF && data[1] == 0xD8 {
        let (start, end) = match find_exif_segment(data) {
            Ok(p) => p,
            Err(e) => {
                return Err(e);
            },
        };
        let block = match subvec(data, start, end) {
            Ok(b) => b,
            Err(e) => {
                return Err(e);
            },
        };
        Ok((ContainerKind::Jpeg, block))
    } else if len >= 4 && ((data[0] == 0x49 && data[1] == 0x49 && data[2] == 0x2A && data[3]
        == 0x00) || (data[0] == 0x4D && data[1] == 0x4D && data[2] == 0x00 && data[3] == 0x2A)) {
        let block = match subvec(data, 0, len) {
            Ok(b) => b,
            Err(e) => {
                return Err(e);
            },
        };
        proof {
            assert(data@.subrange(0, data@.len() as int) =~= data@);
        }
        Ok((ContainerKind::Tiff, block))
    } else {
        Err(ExifError::UnsupportedFormat)
    }
}

} // verus!
