//! The tag registry: a pure lookup from (directory kind, tag id) to a
//! human-readable name and an optional unit hint.
//!
//! The registry covers a representative subset of the standard tags;
//! unknown tag ids are not an error anywhere in the decoder, and a
//! lookup miss leaves a field nameless but intact. The primary and
//! thumbnail directories share the TIFF tag table.

use vstd::prelude::*;

use crate::model::IfdKind;

verus! {

/// The registry name for a tag, if it has one.
pub open spec fn spec_tag_name(kind: IfdKind, tag: u16) -> Option<Seq<char>> {
    match kind {
        IfdKind::Primary | IfdKind::Thumbnail => {
            if tag == 0x010E {
                Some("ImageDescription"@)
            } else if tag == 0x010F {
                Some("Make"@)
            } else if tag == 0x0110 {
                Some("Model"@)
            } else if tag == 0x0112 {
                Some("Orientation"@)
            } else if tag == 0x011A {
                Some("XResolution"@)
            } else if tag == 0x011B {
                Some("YResolution"@)
            } else if tag == 0x0132 {
                Some("DateTime"@)
            } else {
                None
            }
        },
        IfdKind::Exif => {
            if tag == 0x829A {
                Some("ExposureTime"@)
            } else if tag == 0x829D {
                Some("FNumber"@)
            } else if tag == 0x8827 {
                Some("PhotographicSensitivity"@)
            } else if tag == 0x9003 {
                Some("DateTimeOriginal"@)
            } else if tag == 0x920A {
                Some("FocalLength"@)
            } else if tag == 0xA002 {
                Some("PixelXDimension"@)
            } else if tag == 0xA003 {
                Some("PixelYDimension"@)
            } else {
                None
            }
        },
        IfdKind::Gps => {
            if tag == 0x0001 {
                Some("GPSLatitudeRef"@)
            } else if tag == 0x0002 {
                Some("GPSLatitude"@)
            } else if tag == 0x0003 {
                Some("GPSLongitudeRef"@)
            } else if tag == 0x0004 {
                Some("GPSLongitude"@)
            } else if tag == 0x0005 {
                Some("GPSAltitudeRef"@)
            } else if tag == 0x0006 {
                Some("GPSAltitude"@)
            } else {
                None
            }
        },
        IfdKind::Interop => {
            if tag == 0x0001 {
                Some("InteroperabilityIndex"@)
            } else {
                None
            }
        },
    }
}

/// The registry unit hint for a tag, if it has one.
pub open spec fn spec_tag_unit(kind: IfdKind, tag: u16) -> Option<Seq<char>> {
    match kind {
        IfdKind::Primary | IfdKind::Thumbnail => {
            if tag == 0x011A || tag == 0x011B {
                Some("pixels per unit"@)
            } else {
                None
            }
        },
        IfdKind::Exif => {
            if tag == 0x829A {
                Some("s"@)
            } else if tag == 0x920A {
                Some("mm"@)
            } else if tag == 0xA002 || tag == 0xA003 {
                Some("pixels"@)
            } else {
                None
            }
        },
        IfdKind::Gps => {
            if tag == 0x0002 || tag == 0x0004 {
                Some("deg"@)
            } else if tag == 0x0006 {
                Some("m"@)
            } else {
                None
            }
        },
        IfdKind::Interop => None,
    }
}

/// Whether a tag's rational values render by the decimal convention
/// (one decimal place) instead of as a plain fraction; the F-number
/// is the representative case.
pub open spec fn spec_tag_decimal(kind: IfdKind, tag: u16) -> bool {
    kind == IfdKind::Exif && tag == 0x829D
}

/// Executable twin of `spec_tag_decimal`.
pub fn tag_decimal(kind: IfdKind, tag: u16) -> (r: bool)
    ensures
        r == spec_tag_decimal(kind, tag),
{
    matches!(kind, IfdKind::Exif) && tag == 0x829D
}

/// Look up the name of a tag.
pub fn tag_name(kind: IfdKind, tag: u16) -> (r: Option<&'static str>)
    ensures
        r is Some <==> spec_tag_name(kind, tag) is Some,
        r matches Some(s) ==> s@ == spec_tag_name(kind, tag).unwrap(),
{
    match kind {
        IfdKind::Primary | IfdKind::Thumbnail => {
            if tag == 0x010E {
                Some("ImageDescription")
            } else if tag == 0x010F {
                Some("Make")
            } else if tag == 0x0110 {
                Some("Model")
            } else if tag == 0x0112 {
                Some("Orientation")
            } else if tag == 0x011A {
                Some("XResolution")
            } else if tag == 0x011B {
                Some("YResolution")
            } else if tag == 0x0132 {
                Some("DateTime")
            } else {
                None
            }
        },
        IfdKind::Exif => {
            if tag == 0x829A {
                Some("ExposureTime")
            } else if tag == 0x829D {
                Some("FNumber")
            } else if tag == 0x8827 {
                Some("PhotographicSensitivity")
            } else if tag == 0x9003 {
                Some("DateTimeOriginal")
            } else if tag == 0x920A {
                Some("FocalLength")
            } else if tag == 0xA002 {
                Some("PixelXDimension")
            } else if tag == 0xA003 {
                Some("PixelYDimension")
            } else {
                None
            }
        },
        IfdKind::Gps => {
            if tag == 0x0001 {
                Some("GPSLatitudeRef")
            } else if tag == 0x0002 {
                Some("GPSLatitude")
            } else if tag == 0x0003 {
                Some("GPSLongitudeRef")
            } else if tag == 0x0004 {
                Some("GPSLongitude")
            } else if tag == 0x0005 {
                Some("GPSAltitudeRef")
            } else if tag == 0x0006 {
                Some("GPSAltitude")
            } else {
                None
            }
        },
        IfdKind::Interop => {
            if tag == 0x0001 {
                Some("InteroperabilityIndex")
            } else {
                None
            }
        },
    }
}

/// Look up the unit hint of a tag.
pub fn tag_unit(kind: IfdKind, tag: u16) -> (r: Option<&'static str>)
    ensures
        r is Some <==> spec_tag_unit(kind, tag) is Some,
        r matches Some(s) ==> s@ == spec_tag_unit(kind, tag).unwrap(),
{
    match kind {
        IfdKind::Primary | IfdKind::Thumbnail => {
            if tag == 0x011A || tag == 0x011B {
                Some("pixels per unit")
            } else {
                None
            }
        },
        IfdKind::Exif => {
            if tag == 0x829A {
                Some("s")
            } else if tag == 0x920A {
                Some("mm")
            } else if tag == 0xA002 || tag == 0xA003 {
                Some("pixels")
            } else {
                None
            }
        },
        IfdKind::Gps => {
            if tag == 0x0002 || tag == 0x0004 {
                Some("deg")
            } else if tag == 0x0006 {
                Some("m")
            } else {
                None
            }
        },
        IfdKind::Interop => None,
    }
}

} // verus!
