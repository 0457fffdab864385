//! Decoder for EXIF metadata embedded in JPEG and TIFF image files.
//!
//! The decoder walks an in-memory byte buffer, locates the TIFF-structured
//! metadata block, parses its directory chain, and returns a typed,
//! ordered collection of tag/value pairs.

use vstd::prelude::*;

mod bytes;
mod error;
mod model;
mod ifd;
mod registry;
mod render;
mod sniff;
mod value;

pub use bytes::ByteCursor;
pub use bytes::i32_of_u32;
pub use bytes::read_u16;
pub use bytes::read_u32;
pub use bytes::spec_i32_at;
pub use bytes::spec_i32_of_u32;
pub use bytes::spec_u16_at;
pub use bytes::spec_u32_at;
pub use bytes::subvec;
pub use error::ExifError;
pub use model::ByteOrder;
pub use model::ContainerKind;
pub use model::ExifDocument;
pub use model::Field;
pub use model::IfdKind;
pub use model::Rational;
pub use model::SRational;
pub use model::RawEntry;
pub use model::TagValue;
pub use model::TagValueModel;
pub use ifd::MAX_DEPTH;
pub use ifd::field_matches_entry;
pub use ifd::opt_str_view;
pub use ifd::spec_dir_count;
pub use ifd::spec_dir_in_bounds;
pub use ifd::spec_dir_entry;
pub use ifd::spec_dir_next;
pub use ifd::spec_entry_at;
pub use ifd::spec_leaf_dir;
pub use ifd::spec_plain_dir;
pub use ifd::spec_subifd_target;
pub use ifd::visited_inv;
pub use ifd::decode_entry_field;
pub use ifd::lemma_value_location;
pub use ifd::parse_tiff_block;
pub use ifd::spec_block_decodes;
pub use ifd::spec_block_with_chain;
pub use ifd::spec_block_with_subdir;
pub use ifd::spec_chained_dirs;
pub use ifd::spec_chained_fields;
pub use ifd::spec_entry_target;
pub use ifd::spec_trailing_pointer;
pub use ifd::spec_trailing_subdir;
pub use ifd::spec_trailing_subdir_fields;
pub use ifd::spec_block_self_looping;
pub use ifd::spec_doc_fields_ok;
pub use ifd::spec_header_ok;
pub use ifd::spec_header_order;
pub use ifd::spec_value_bytes;
pub use ifd::walk_ifd;
pub use registry::spec_tag_decimal;
pub use registry::spec_tag_name;
pub use registry::spec_tag_unit;
pub use registry::tag_decimal;
pub use registry::tag_name;
pub use registry::tag_unit;
pub use render::dec_str;
pub use render::decimal1_str;
pub use render::gps_run_end;
pub use render::gps_run_start;
pub use render::render_decimal1;
pub use render::render_field_value;
pub use render::spec_field_value_str;
pub use render::digit_char;
pub use render::field_display_str;
pub use render::find_text_field;
pub use render::int_str;
pub use render::join_strs;
pub use render::tag_label_str;
pub use render::i64_dec;
pub use render::lemma_zero_denominator_sentinel;
pub use render::rational_str;
pub use render::render_rational;
pub use render::render_srational;
pub use render::render_value;
pub use render::srational_str;
pub use render::u64_dec;
pub use render::value_str;
pub use sniff::sniff;
pub use value::byte_len;
pub use value::decode_value;
pub use value::first_nul;
pub use value::lossy_utf8;
pub use value::spec_decode;
pub use value::type_size;
pub use sniff::is_jpeg;
pub use sniff::is_tiff;
pub use sniff::spec_jpeg_scan;
pub use sniff::ScanOutcome;

verus! {

/// Decode the EXIF metadata embedded in one in-memory image file.
///
/// The buffer must be a whole JPEG or TIFF file. Anything else is
/// `UnsupportedFormat`; a JPEG without an APP1/Exif segment is
/// `NoExifData`; a corrupt TIFF header is `MalformedHeader`; and a
/// directory chain that leaves the buffer, repeats an offset, or
/// nests too deeply is `OutOfBounds`, `CyclicDirectory`, or
/// `DirectoryTooDeep`. On success the document records the container,
/// the byte order the block declared, and every field in traversal
/// order.
pub fn parse_exif(data: &Vec<u8>) -> (r: Result<ExifDocument, ExifError>)
    ensures
        r == Err::<ExifDocument, ExifError>(ExifError::UnsupportedFormat) <==> (!is_jpeg(data@)
            && !is_tiff(data@)),
        r == Err::<ExifDocument, ExifError>(ExifError::NoExifData) ==> is_jpeg(data@),
        is_tiff(data@) ==> (!spec_header_ok(data@) ==> r == Err::<ExifDocument, ExifError>(
            ExifError::MalformedHeader,
        )) && (r matches Ok(doc) ==> doc.container == ContainerKind::Tiff && spec_header_ok(data@)
            && doc.byte_order == spec_header_order(data@).unwrap() && ifd::spec_doc_fields_ok(
            data@,
            doc,
        )) && (spec_block_decodes(data@) ==> r is Ok) && (spec_block_with_subdir(data@) ==> r
            is Ok) && (spec_block_with_chain(data@) ==> r is Ok) && (spec_block_self_looping(
            data@,
        ) ==> r == Err::<ExifDocument, ExifError>(ExifError::CyclicDirectory)),
        is_jpeg(data@) ==> match spec_jpeg_scan(data@, 2) {
            ScanOutcome::Found { start, end } => (!spec_header_ok(data@.subrange(start, end))
                ==> r == Err::<ExifDocument, ExifError>(ExifError::MalformedHeader)) && (
            r matches Ok(doc) ==> doc.container == ContainerKind::Jpeg && spec_header_ok(
                data@.subrange(start, end),
            ) && doc.byte_order == spec_header_order(data@.subrange(start, end)).unwrap()
                && ifd::spec_doc_fields_ok(data@.subrange(start, end), doc)) && (
            spec_block_decodes(data@.subrange(start, end)) ==> r is Ok) && (
            spec_block_with_subdir(data@.subrange(start, end)) ==> r is Ok) && (
            spec_block_with_chain(data@.subrange(start, end)) ==> r is Ok) && (
            spec_block_self_looping(data@.subrange(start, end)) ==> r == Err::<
                ExifDocument,
                ExifError,
            >(ExifError::CyclicDirectory)),
            ScanOutcome::NoExif => r == Err::<ExifDocument, ExifError>(ExifError::NoExifData),
            ScanOutcome::Malformed => r == Err::<ExifDocument, ExifError>(
                ExifError::MalformedHeader,
            ),
            ScanOutcome::OutOfBounds => r == Err::<ExifDocument, ExifError>(ExifError::OutOfBounds),
        },
{
    let (container, block) = match sniff::sniff(data) {
        Ok(p) => p,
        Err(e) => {
            return Err(e);
        },
    };
    parse_tiff_block(&block, container)
}

/// The byte order a successful parse reports is the one the block's
/// first two bytes declare: `II` is little-endian, `MM` big-endian.
pub proof fn lemma_byte_order_matches_marker(s: Seq<u8>, doc: ExifDocument)
    requires
        spec_header_ok(s),
        doc.byte_order == spec_header_order(s).unwrap(),
    ensures
        (doc.byte_order == ByteOrder::Little <==> (s[0] == 0x49 && s[1] == 0x49)),
        (doc.byte_order == ByteOrder::Big <==> (s[0] == 0x4D && s[1] == 0x4D)),
{
}

} // verus!

