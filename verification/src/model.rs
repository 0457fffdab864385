//! The data model of a decoded document: byte order, container kind,
//! directory kinds, typed tag values, fields, and the document itself.

use vstd::prelude::*;

verus! {

/// Endianness of all multi-byte reads inside the metadata block,
/// established once per document from the block's first two bytes.
#[derive(Clone, Copy, Debug, PartialEq, Eq, Structural)]
pub enum ByteOrder {
    Little,
    Big,
}

/// The outer image container the metadata block was found in.
#[derive(Clone, Copy, Debug, PartialEq, Eq, Structural)]
pub enum ContainerKind {
    Jpeg,
    Tiff,
}

/// Which logical directory an entry belongs to. Tag identifiers are only
/// unique within one directory kind.
#[derive(Clone, Copy, Debug, PartialEq, Eq, Structural)]
pub enum IfdKind {
    Primary,
    Exif,
    Gps,
    Interop,
    Thumbnail,
}

impl IfdKind {
    /// A short label for the directory kind.
    pub fn describe(&self) -> (r: &'static str)
        ensures
            *self is Primary ==> r@ == "Primary"@,
            *self is Exif ==> r@ == "Exif"@,
            *self is Gps ==> r@ == "Gps"@,
            *self is Interop ==> r@ == "Interop"@,
            *self is Thumbnail ==> r@ == "Thumbnail"@,
    {
        match self {
            IfdKind::Primary => "Primary",
            IfdKind::Exif => "Exif",
            IfdKind::Gps => "Gps",
            IfdKind::Interop => "Interop",
            IfdKind::Thumbnail => "Thumbnail",
        }
    }
}

/// An unsigned ratio. A denominator of zero is kept as-is and rendered
/// as a sentinel; no division is ever performed on it.
#[derive(Clone, Copy, Debug, PartialEq, Eq, Structural)]
pub struct Rational {
    pub num: u32,
    pub den: u32,
}

/// A signed ratio, with the same zero-denominator rule as `Rational`.
#[derive(Clone, Copy, Debug, PartialEq, Eq, Structural)]
pub struct SRational {
    pub num: i32,
    pub den: i32,
}

/// A decoded tag value. The variant and element count are fully
/// determined by the raw entry's type code and count.
#[derive(Clone, Debug)]
pub enum TagValue {
    /// Type codes 3 (short) and 4 (long).
    UnsignedInt(Vec<u32>),
    /// Type code 9 (signed long).
    SignedInt(Vec<i32>),
    /// Type code 5 (unsigned rational).
    Rational(Vec<Rational>),
    /// Type code 10 (signed rational).
    SRational(Vec<SRational>),
    /// Type code 2, truncated at the first NUL and decoded leniently.
    Ascii(String),
    /// Type code 1 (unsigned byte).
    Bytes(Vec<u8>),
    /// Type code 7, and any unknown type code, kept as raw bytes.
    Undefined(Vec<u8>),
}

/// The mathematical shape of a `TagValue`.
pub enum TagValueModel {
    UnsignedInt(Seq<u32>),
    SignedInt(Seq<i32>),
    Rational(Seq<Rational>),
    SRational(Seq<SRational>),
    Ascii(Seq<char>),
    Bytes(Seq<u8>),
    Undefined(Seq<u8>),
}

impl View for TagValue {
    type V = TagValueModel;

    open spec fn view(&self) -> TagValueModel {
        match self {
            TagValue::UnsignedInt(v) => TagValueModel::UnsignedInt(v@),
            TagValue::SignedInt(v) => TagValueModel::SignedInt(v@),
            TagValue::Rational(v) => TagValueModel::Rational(v@),
            TagValue::SRational(v) => TagValueModel::SRational(v@),
            TagValue::Ascii(s) => TagValueModel::Ascii(s@),
            TagValue::Bytes(v) => TagValueModel::Bytes(v@),
            TagValue::Undefined(v) => TagValueModel::Undefined(v@),
        }
    }
}

/// One directory entry as it sits in the buffer: a tag id, a type
/// code, an element count, and the four bytes that hold the value
/// itself or the offset to it.
#[derive(Clone, Copy, Debug)]
pub struct RawEntry {
    pub tag_id: u16,
    pub type_code: u16,
    pub count: u32,
    pub raw: (u8, u8, u8, u8),
}

impl RawEntry {
    /// The four inline bytes as a sequence.
    pub open spec fn raw_bytes(&self) -> Seq<u8> {
        seq![self.raw.0, self.raw.1, self.raw.2, self.raw.3]
    }
}

/// One decoded tag: which directory it came from, its numeric identity,
/// an optional registry name and unit, and its typed value.
#[derive(Clone, Debug)]
pub struct Field {
    pub ifd: IfdKind,
    pub tag_id: u16,
    pub tag_name: Option<String>,
    pub value: TagValue,
    pub unit_hint: Option<String>,
}

/// The immutable result of one parse call: the detected container and
/// byte order, and every field in directory-traversal order.
#[derive(Clone, Debug)]
pub struct ExifDocument {
    pub container: ContainerKind,
    pub byte_order: ByteOrder,
    pub fields: Vec<Field>,
}

impl ExifDocument {
    /// How many fields the document holds.
    pub fn len(&self) -> (r: usize)
        ensures
            r == self.fields@.len(),
    {
        self.fields.len()
    }

    /// Borrow the field at `i`, in traversal order.
    pub fn field(&self, i: usize) -> (r: &Field)
        requires
            i < self.fields@.len(),
        ensures
            *r == self.fields@[i as int],
    {
        &self.fields[i]
    }
}

} // verus!
