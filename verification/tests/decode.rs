use exif_2g::ByteOrder;
use exif_2g::ContainerKind;
use exif_2g::ExifError;
use exif_2g::IfdKind;
use exif_2g::TagValue;
use exif_2g::parse_exif;

fn expect_err(b: &Vec<u8>) -> ExifError {
    match parse_exif(b) {
        Err(e) => e,
        Ok(_) => panic!("expected an error"),
    }
}

fn push_u16_le(b: &mut Vec<u8>, v: u16) {
    b.push((v & 0xFF) as u8);
    b.push((v >> 8) as u8);
}

fn push_u32_le(b: &mut Vec<u8>, v: u32) {
    b.push((v & 0xFF) as u8);
    b.push(((v >> 8) & 0xFF) as u8);
    b.push(((v >> 16) & 0xFF) as u8);
    b.push(((v >> 24) & 0xFF) as u8);
}

fn push_u16_be(b: &mut Vec<u8>, v: u16) {
    b.push((v >> 8) as u8);
    b.push((v & 0xFF) as u8);
}

fn push_u32_be(b: &mut Vec<u8>, v: u32) {
    b.push(((v >> 24) & 0xFF) as u8);
    b.push(((v >> 16) & 0xFF) as u8);
    b.push(((v >> 8) & 0xFF) as u8);
    b.push((v & 0xFF) as u8);
}

/// TIFF header in the given order with the first directory at 8.
fn tiff_header(little: bool) -> Vec<u8> {
    let mut b = Vec::new();
    if little {
        b.push(0x49);
        b.push(0x49);
        push_u16_le(&mut b, 42);
        push_u32_le(&mut b, 8);
    } else {
        b.push(0x4D);
        b.push(0x4D);
        push_u16_be(&mut b, 42);
        push_u32_be(&mut b, 8);
    }
    b
}

/// One 12-byte directory entry, little-endian.
fn push_entry_le(b: &mut Vec<u8>, tag: u16, type_code: u16, count: u32, raw: [u8; 4]) {
    push_u16_le(b, tag);
    push_u16_le(b, type_code);
    push_u32_le(b, count);
    b.extend_from_slice(&raw);
}

/// One 12-byte directory entry, big-endian.
fn push_entry_be(b: &mut Vec<u8>, tag: u16, type_code: u16, count: u32, raw: [u8; 4]) {
    push_u16_be(b, tag);
    push_u16_be(b, type_code);
    push_u32_be(b, count);
    b.extend_from_slice(&raw);
}

/// Minimal single-entry little-endian TIFF: header, one directory with
/// one entry, next pointer, then `extra` bytes (values pointed into).
fn tiff_one_entry_le(tag: u16, type_code: u16, count: u32, raw: [u8; 4], extra: &[u8]) -> Vec<u8> {
    let mut b = tiff_header(true);
    push_u16_le(&mut b, 1);
    push_entry_le(&mut b, tag, type_code, count, raw);
    push_u32_le(&mut b, 0);
    b.extend_from_slice(extra);
    b
}

#[test]
fn byte_order_round_trip() {
    // Orientation (short, value 3) once under "II", once under "MM".
    let mut le = tiff_header(true);
    push_u16_le(&mut le, 1);
    push_entry_le(&mut le, 0x0112, 3, 1, [3, 0, 0, 0]);
    push_u32_le(&mut le, 0);

    let mut be = tiff_header(false);
    push_u16_be(&mut be, 1);
    push_entry_be(&mut be, 0x0112, 3, 1, [0, 3, 0, 0]);
    push_u32_be(&mut be, 0);

    let doc_le = parse_exif(&le).unwrap();
    let doc_be = parse_exif(&be).unwrap();
    assert_eq!(doc_le.byte_order, ByteOrder::Little);
    assert_eq!(doc_be.byte_order, ByteOrder::Big);
    assert_eq!(doc_le.len(), 1);
    assert_eq!(doc_be.len(), 1);
    let v_le = match &doc_le.field(0).value {
        TagValue::UnsignedInt(v) => v.clone(),
        _ => panic!("expected unsigned value"),
    };
    let v_be = match &doc_be.field(0).value {
        TagValue::UnsignedInt(v) => v.clone(),
        _ => panic!("expected unsigned value"),
    };
    assert_eq!(v_le, vec![3]);
    assert_eq!(v_le, v_be);
}

#[test]
fn inline_value_at_exactly_four_bytes() {
    // Four bytes of type 1 fit inline; the raw field is the value.
    let b = tiff_one_entry_le(0x9999, 1, 4, [9, 8, 7, 6], &[]);
    let doc = parse_exif(&b).unwrap();
    assert_eq!(doc.len(), 1);
    match &doc.field(0).value {
        TagValue::Bytes(v) => assert_eq!(v, &vec![9, 8, 7, 6]),
        _ => panic!("expected bytes"),
    }
}

#[test]
fn pointer_value_at_five_bytes() {
    // Five bytes of type 1 do not fit inline: the raw field is an
    // offset (26 = 8 header-and-directory area + 18).
    let b = tiff_one_entry_le(0x9999, 1, 5, [26, 0, 0, 0], &[1, 2, 3, 4, 5]);
    let doc = parse_exif(&b).unwrap();
    assert_eq!(doc.len(), 1);
    match &doc.field(0).value {
        TagValue::Bytes(v) => assert_eq!(v, &vec![1, 2, 3, 4, 5]),
        _ => panic!("expected bytes"),
    }
}

#[test]
fn zero_denominator_renders_sentinel() {
    let mut extra = Vec::new();
    push_u32_le(&mut extra, 7);
    push_u32_le(&mut extra, 0);
    let b = tiff_one_entry_le(0x011A, 5, 1, [26, 0, 0, 0], &extra);
    let doc = parse_exif(&b).unwrap();
    assert_eq!(doc.len(), 1);
    match &doc.field(0).value {
        TagValue::Rational(v) => {
            assert_eq!(v.len(), 1);
            assert_eq!(v[0].num, 7);
            assert_eq!(v[0].den, 0);
        },
        _ => panic!("expected rational"),
    }
    assert_eq!(doc.field(0).display_value(), "undefined");
}

#[test]
fn rational_renders_fraction() {
    let mut extra = Vec::new();
    push_u32_le(&mut extra, 1);
    push_u32_le(&mut extra, 2);
    let b = tiff_one_entry_le(0x011A, 5, 1, [26, 0, 0, 0], &extra);
    let doc = parse_exif(&b).unwrap();
    assert_eq!(doc.field(0).display_value(), "1/2");
}

#[test]
fn cyclic_next_pointer_rejected() {
    // The directory's "next" pointer refers back to the directory
    // itself at offset 8.
    let mut b = tiff_header(true);
    push_u16_le(&mut b, 1);
    push_entry_le(&mut b, 0x0112, 3, 1, [1, 0, 0, 0]);
    push_u32_le(&mut b, 8);
    assert_eq!(expect_err(&b), ExifError::CyclicDirectory);
}

#[test]
fn deep_nesting_rejected() {
    // A chain of ten photo-directory pointers, each at a fresh offset:
    // nesting exceeds the maximum depth before any offset repeats.
    let mut b = tiff_header(true);
    let mut off: u32 = 8;
    for _ in 0..10 {
        let next_dir = off + 18;
        push_u16_le(&mut b, 1);
        push_entry_le(&mut b, 0x8769, 4, 1, next_dir.to_le_bytes());
        push_u32_le(&mut b, 0);
        off = next_dir;
    }
    push_u16_le(&mut b, 0);
    push_u32_le(&mut b, 0);
    assert_eq!(expect_err(&b), ExifError::DirectoryTooDeep);
}

#[test]
fn jpeg_without_exif_segment() {
    // A JPEG with an APP0 segment and then end-of-image: no metadata,
    // but a recognized container.
    let b = vec![0xFF, 0xD8, 0xFF, 0xE0, 0x00, 0x04, 0x4A, 0x46, 0xFF, 0xD9];
    assert_eq!(expect_err(&b), ExifError::NoExifData);
}

#[test]
fn minimal_tiff_single_ascii_field() {
    // ImageDescription "test" (five bytes with the NUL, so pointed-to).
    let b = tiff_one_entry_le(0x010E, 2, 5, [26, 0, 0, 0], b"test\0");
    let doc = parse_exif(&b).unwrap();
    assert_eq!(doc.container, ContainerKind::Tiff);
    assert_eq!(doc.len(), 1);
    let f = doc.field(0);
    assert_eq!(f.ifd, IfdKind::Primary);
    assert_eq!(f.tag_id, 0x010E);
    match &f.value {
        TagValue::Ascii(s) => assert_eq!(s, "test"),
        _ => panic!("expected text"),
    }
    assert_eq!(f.tag_name.as_deref(), Some("ImageDescription"));
}

#[test]
fn jpeg_exif_subifd_fields() {
    // TIFF block: primary directory holds only the photo-directory
    // pointer (tag 0x8769) to a nested directory at 26 with one
    // PhotographicSensitivity entry.
    let mut block = tiff_header(true);
    push_u16_le(&mut block, 1);
    push_entry_le(&mut block, 0x8769, 4, 1, [26, 0, 0, 0]);
    push_u32_le(&mut block, 0);
    push_u16_le(&mut block, 1);
    push_entry_le(&mut block, 0x8827, 3, 1, [100, 0, 0, 0]);
    push_u32_le(&mut block, 0);

    let mut b = vec![0xFF, 0xD8, 0xFF, 0xE1];
    let seg_len = (2 + 6 + block.len()) as u16;
    push_u16_be(&mut b, seg_len);
    b.extend_from_slice(b"Exif\0\0");
    b.extend_from_slice(&block);

    let doc = parse_exif(&b).unwrap();
    assert_eq!(doc.container, ContainerKind::Jpeg);
    assert_eq!(doc.len(), 1);
    let f = doc.field(0);
    assert_eq!(f.ifd, IfdKind::Exif);
    assert_eq!(f.tag_id, 0x8827);
    match &f.value {
        TagValue::UnsignedInt(v) => assert_eq!(v, &vec![100]),
        _ => panic!("expected unsigned value"),
    }
    // The pointer tag itself is not a visible field.
    for i in 0..doc.len() {
        assert_ne!(doc.field(i).tag_id, 0x8769);
    }
}

#[test]
fn unknown_tag_preserved() {
    let b = tiff_one_entry_le(0xBEEF, 3, 1, [7, 0, 0, 0], &[]);
    let doc = parse_exif(&b).unwrap();
    assert_eq!(doc.len(), 1);
    let f = doc.field(0);
    assert_eq!(f.tag_id, 0xBEEF);
    assert!(f.tag_name.is_none());
    assert_eq!(f.tag_label(), "Tag(48879)");
    match &f.value {
        TagValue::UnsignedInt(v) => assert_eq!(v, &vec![7]),
        _ => panic!("expected unsigned value"),
    }
}

#[test]
fn unknown_type_code_kept_as_undefined() {
    let b = tiff_one_entry_le(0x0112, 99, 2, [0xAB, 0xCD, 0, 0], &[]);
    let doc = parse_exif(&b).unwrap();
    match &doc.field(0).value {
        TagValue::Undefined(v) => assert_eq!(v, &vec![0xAB, 0xCD]),
        _ => panic!("expected undefined"),
    }
}

#[test]
fn unsupported_format_rejected() {
    let b = b"hello world".to_vec();
    assert_eq!(expect_err(&b), ExifError::UnsupportedFormat);
}

#[test]
fn truncated_tiff_header_malformed() {
    let b = vec![0x49, 0x49, 0x2A, 0x00];
    assert_eq!(expect_err(&b), ExifError::MalformedHeader);
}

#[test]
fn out_of_bounds_pointer_rejected() {
    let b = tiff_one_entry_le(0x9999, 1, 100, [0xFF, 0xFF, 0, 0], &[]);
    assert_eq!(expect_err(&b), ExifError::OutOfBounds);
}

#[test]
fn ascii_truncates_at_first_nul() {
    let b = tiff_one_entry_le(0x010E, 2, 5, [26, 0, 0, 0], b"ab\0cd");
    let doc = parse_exif(&b).unwrap();
    match &doc.field(0).value {
        TagValue::Ascii(s) => assert_eq!(s, "ab"),
        _ => panic!("expected text"),
    }
}

#[test]
fn exposure_time_renders_with_unit() {
    // ExposureTime 1/125 inside the photo directory.
    let mut block = tiff_header(true);
    push_u16_le(&mut block, 1);
    push_entry_le(&mut block, 0x8769, 4, 1, [26, 0, 0, 0]);
    push_u32_le(&mut block, 0);
    push_u16_le(&mut block, 1);
    push_entry_le(&mut block, 0x829A, 5, 1, [44, 0, 0, 0]);
    push_u32_le(&mut block, 0);
    push_u32_le(&mut block, 1);
    push_u32_le(&mut block, 125);

    let doc = parse_exif(&block).unwrap();
    assert_eq!(doc.len(), 1);
    assert_eq!(doc.field(0).tag_name.as_deref(), Some("ExposureTime"));
    assert_eq!(doc.display_value_with_unit(0), "1/125 s");
}

#[test]
fn gps_coordinate_combines_reference() {
    // GPS directory with a latitude reference "N" and a latitude
    // triplet 52/1 30/1 0/1.
    let mut block = tiff_header(true);
    push_u16_le(&mut block, 1);
    push_entry_le(&mut block, 0x8825, 4, 1, [26, 0, 0, 0]);
    push_u32_le(&mut block, 0);
    push_u16_le(&mut block, 2);
    push_entry_le(&mut block, 0x0001, 2, 2, [b'N', 0, 0, 0]);
    push_entry_le(&mut block, 0x0002, 5, 3, [56, 0, 0, 0]);
    push_u32_le(&mut block, 0);
    for (num, den) in [(52u32, 1u32), (30, 1), (0, 1)] {
        push_u32_le(&mut block, num);
        push_u32_le(&mut block, den);
    }

    let doc = parse_exif(&block).unwrap();
    assert_eq!(doc.len(), 2);
    assert_eq!(doc.field(0).tag_name.as_deref(), Some("GPSLatitudeRef"));
    let lat = doc.field(1);
    assert_eq!(lat.ifd, IfdKind::Gps);
    assert_eq!(lat.tag_name.as_deref(), Some("GPSLatitude"));
    assert_eq!(doc.display_value_with_unit(1), "52/1 30/1 0/1 deg N");
}

#[test]
fn signed_rational_renders_sign() {
    let mut extra = Vec::new();
    push_u32_le(&mut extra, (-3i32) as u32);
    push_u32_le(&mut extra, 2);
    let b = tiff_one_entry_le(0x9999, 10, 1, [26, 0, 0, 0], &extra);
    let doc = parse_exif(&b).unwrap();
    match &doc.field(0).value {
        TagValue::SRational(v) => {
            assert_eq!(v[0].num, -3);
            assert_eq!(v[0].den, 2);
        },
        _ => panic!("expected signed rational"),
    }
    assert_eq!(doc.field(0).display_value(), "-3/2");
}

#[test]
fn thumbnail_chain_follows_next_pointer() {
    // Primary directory, then a second directory through the "next"
    // pointer: its fields are thumbnail fields.
    let mut b = tiff_header(true);
    push_u16_le(&mut b, 1);
    push_entry_le(&mut b, 0x0112, 3, 1, [1, 0, 0, 0]);
    push_u32_le(&mut b, 26);
    push_u16_le(&mut b, 1);
    push_entry_le(&mut b, 0x0112, 3, 1, [6, 0, 0, 0]);
    push_u32_le(&mut b, 0);
    let doc = parse_exif(&b).unwrap();
    assert_eq!(doc.len(), 2);
    assert_eq!(doc.field(0).ifd, IfdKind::Primary);
    assert_eq!(doc.field(1).ifd, IfdKind::Thumbnail);
    match &doc.field(1).value {
        TagValue::UnsignedInt(v) => assert_eq!(v, &vec![6]),
        _ => panic!("expected unsigned value"),
    }
}

#[test]
fn duplicate_tags_both_retained() {
    // Two entries with the same (directory, tag) pair: the decoder
    // keeps both in order, leaving validation to the caller.
    let mut b = tiff_header(true);
    push_u16_le(&mut b, 2);
    push_entry_le(&mut b, 0x0112, 3, 1, [1, 0, 0, 0]);
    push_entry_le(&mut b, 0x0112, 3, 1, [2, 0, 0, 0]);
    push_u32_le(&mut b, 0);
    let doc = parse_exif(&b).unwrap();
    assert_eq!(doc.len(), 2);
    assert_eq!(doc.field(0).tag_id, 0x0112);
    assert_eq!(doc.field(1).tag_id, 0x0112);
    match &doc.field(1).value {
        TagValue::UnsignedInt(v) => assert_eq!(v, &vec![2]),
        _ => panic!("expected unsigned value"),
    }
}

#[test]
fn interop_directory_reached_through_pointer() {
    // Photo directory holds the interoperability pointer (0xA005);
    // the nested directory's entry comes back under Interop.
    let mut b = tiff_header(true);
    push_u16_le(&mut b, 1);
    push_entry_le(&mut b, 0x8769, 4, 1, [26, 0, 0, 0]);
    push_u32_le(&mut b, 0);
    push_u16_le(&mut b, 1);
    push_entry_le(&mut b, 0xA005, 4, 1, [44, 0, 0, 0]);
    push_u32_le(&mut b, 0);
    push_u16_le(&mut b, 1);
    push_entry_le(&mut b, 0x0001, 2, 4, [b'R', b'9', b'8', 0]);
    push_u32_le(&mut b, 0);
    let doc = parse_exif(&b).unwrap();
    assert_eq!(doc.len(), 1);
    let f = doc.field(0);
    assert_eq!(f.ifd, IfdKind::Interop);
    assert_eq!(f.tag_name.as_deref(), Some("InteroperabilityIndex"));
    match &f.value {
        TagValue::Ascii(s) => assert_eq!(s, "R98"),
        _ => panic!("expected text"),
    }
}

#[test]
fn signed_long_decodes_negative() {
    let b = tiff_one_entry_le(0x9999, 9, 1, (-5i32).to_le_bytes(), &[]);
    let doc = parse_exif(&b).unwrap();
    match &doc.field(0).value {
        TagValue::SignedInt(v) => assert_eq!(v, &vec![-5]),
        _ => panic!("expected signed value"),
    }
    assert_eq!(doc.field(0).display_value(), "-5");
}

#[test]
fn multiple_shorts_render_space_separated() {
    let mut extra = Vec::new();
    for v in [10u16, 0, 65535] {
        push_u16_le(&mut extra, v);
    }
    let b = tiff_one_entry_le(0x9999, 3, 3, [26, 0, 0, 0], &extra);
    let doc = parse_exif(&b).unwrap();
    match &doc.field(0).value {
        TagValue::UnsignedInt(v) => assert_eq!(v, &vec![10, 0, 65535]),
        _ => panic!("expected unsigned value"),
    }
    assert_eq!(doc.field(0).display_value(), "10 0 65535");
}

#[test]
fn jpeg_scanner_skips_earlier_segments() {
    // APP0 first, then the APP1/Exif segment holding a minimal TIFF
    // block with one Orientation entry.
    let mut block = tiff_header(true);
    push_u16_le(&mut block, 1);
    push_entry_le(&mut block, 0x0112, 3, 1, [1, 0, 0, 0]);
    push_u32_le(&mut block, 0);

    let mut b = vec![0xFF, 0xD8];
    b.extend_from_slice(&[0xFF, 0xE0, 0x00, 0x04, 0x4A, 0x46]);
    b.push(0xFF);
    b.push(0xE1);
    push_u16_be(&mut b, (2 + 6 + block.len()) as u16);
    b.extend_from_slice(b"Exif\0\0");
    b.extend_from_slice(&block);

    let doc = parse_exif(&b).unwrap();
    assert_eq!(doc.container, ContainerKind::Jpeg);
    assert_eq!(doc.len(), 1);
    assert_eq!(doc.field(0).tag_id, 0x0112);
}

#[test]
fn jpeg_app1_without_exif_marker_is_no_exif_data() {
    // An APP1 segment whose payload is not "Exif\0\0" does not count;
    // with nothing else in the file, there is no metadata.
    let mut b = vec![0xFF, 0xD8, 0xFF, 0xE1, 0x00, 0x0A];
    b.extend_from_slice(b"http:\0\0\0");
    b.push(0xFF);
    b.push(0xD9);
    assert_eq!(expect_err(&b), ExifError::NoExifData);
}

#[test]
fn fnumber_renders_decimal_convention() {
    // FNumber 28/10 renders as 2.8, not as the fraction.
    let mut b = tiff_header(true);
    push_u16_le(&mut b, 1);
    push_entry_le(&mut b, 0x8769, 4, 1, [26, 0, 0, 0]);
    push_u32_le(&mut b, 0);
    push_u16_le(&mut b, 1);
    push_entry_le(&mut b, 0x829D, 5, 1, [44, 0, 0, 0]);
    push_u32_le(&mut b, 0);
    push_u32_le(&mut b, 28);
    push_u32_le(&mut b, 10);
    let doc = parse_exif(&b).unwrap();
    assert_eq!(doc.len(), 1);
    assert_eq!(doc.field(0).tag_name.as_deref(), Some("FNumber"));
    assert_eq!(doc.field(0).display_value(), "2.8");
    assert_eq!(doc.display_value_with_unit(0), "2.8");
}

#[test]
fn gps_reference_not_borrowed_across_passes() {
    // Two GPS passes: the first (from the primary directory) holds
    // only a latitude; the second (reached through the photo
    // directory) holds only a reference. The latitude must not borrow
    // the other pass's reference.
    let mut b = tiff_header(true);
    push_u16_le(&mut b, 2);
    push_entry_le(&mut b, 0x8825, 4, 1, [38, 0, 0, 0]);
    push_entry_le(&mut b, 0x8769, 4, 1, [56, 0, 0, 0]);
    push_u32_le(&mut b, 0);
    // first GPS directory at 38: latitude only
    push_u16_le(&mut b, 1);
    push_entry_le(&mut b, 0x0002, 5, 1, [104, 0, 0, 0]);
    push_u32_le(&mut b, 0);
    // photo directory at 56: one plain entry, then a GPS pointer
    push_u16_le(&mut b, 2);
    push_entry_le(&mut b, 0x8827, 3, 1, [100, 0, 0, 0]);
    push_entry_le(&mut b, 0x8825, 4, 1, [86, 0, 0, 0]);
    push_u32_le(&mut b, 0);
    // second GPS directory at 86: reference only
    push_u16_le(&mut b, 1);
    push_entry_le(&mut b, 0x0001, 2, 2, [b'S', 0, 0, 0]);
    push_u32_le(&mut b, 0);
    // latitude rational at 104
    push_u32_le(&mut b, 52);
    push_u32_le(&mut b, 1);

    let doc = parse_exif(&b).unwrap();
    assert_eq!(doc.len(), 3);
    assert_eq!(doc.field(0).tag_name.as_deref(), Some("GPSLatitude"));
    assert_eq!(doc.field(2).tag_name.as_deref(), Some("GPSLatitudeRef"));
    assert_eq!(doc.display_value_with_unit(0), "52/1 deg");
}

#[test]
fn fields_precede_subdirectory_fields_in_order() {
    // A primary directory with an ordinary entry and then a photo
    // pointer: the primary field comes first, the nested field after,
    // and the pointer itself is invisible.
    let mut b = tiff_header(true);
    push_u16_le(&mut b, 2);
    push_entry_le(&mut b, 0x010E, 2, 4, [b'a', b'b', b'c', 0]);
    push_entry_le(&mut b, 0x8769, 4, 1, [38, 0, 0, 0]);
    push_u32_le(&mut b, 0);
    push_u16_le(&mut b, 1);
    push_entry_le(&mut b, 0x8827, 3, 1, [200, 0, 0, 0]);
    push_u32_le(&mut b, 0);
    let doc = parse_exif(&b).unwrap();
    assert_eq!(doc.len(), 2);
    assert_eq!(doc.field(0).ifd, IfdKind::Primary);
    assert_eq!(doc.field(0).tag_id, 0x010E);
    assert_eq!(doc.field(1).ifd, IfdKind::Exif);
    assert_eq!(doc.field(1).tag_id, 0x8827);
    for i in 0..doc.len() {
        assert_ne!(doc.field(i).tag_id, 0x8769);
    }
}
