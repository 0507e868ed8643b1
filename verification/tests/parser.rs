use dot001::dna::{DnaCollection, DnaField, DnaName, DnaStruct};
use dot001::fieldview::FieldView;
use dot001::error::{BlendFileErrorKind, Dot001Error};
use dot001::header::BlendFileHeader;
use dot001::policy::{
    is_block_visible, is_data_block_code, is_data_size_change_significant, DataBlockVisibility,
};
use dot001::scan::{block_header_size, parse_block_header_at, scan_blocks};

fn create_test_header(pointer_size: u8, is_little_endian: bool) -> BlendFileHeader {
    BlendFileHeader {
        magic: *b"BLENDER",
        pointer_size,
        is_little_endian,
        file_format_version: 0,
        version: 350,
    }
}

fn empty_dna() -> DnaCollection {
    DnaCollection::new_for_test(vec![], vec![], vec![], vec![])
}

#[test]
fn test_data_block_identification() {
    assert!(is_data_block_code("DATA"));
    assert!(!is_data_block_code("ME"));
    assert!(!is_data_block_code("OB"));
    assert!(!is_data_block_code(""));
}

#[test]
fn test_visibility_policy() {
    assert!(is_block_visible("DATA", DataBlockVisibility::Show));
    assert!(is_block_visible("ME", DataBlockVisibility::Show));

    assert!(!is_block_visible("DATA", DataBlockVisibility::Hide));
    assert!(is_block_visible("ME", DataBlockVisibility::Hide));
}

#[test]
fn test_visibility_flags() {
    assert_eq!(DataBlockVisibility::from_flag(true), DataBlockVisibility::Show);
    assert_eq!(DataBlockVisibility::from_flag(false), DataBlockVisibility::Hide);

    assert!(DataBlockVisibility::Show.as_flag());
    assert!(!DataBlockVisibility::Hide.as_flag());
}

#[test]
fn test_data_size_change_significance() {
    assert!(!is_data_size_change_significant(1000, 1000));

    assert!(!is_data_size_change_significant(1000, 980));
    assert!(!is_data_size_change_significant(1000, 960));

    assert!(is_data_size_change_significant(1000, 940));
    assert!(is_data_size_change_significant(1000, 500));

    assert!(is_data_size_change_significant(0, 1000));
    assert!(is_data_size_change_significant(1000, 0));
    assert!(!is_data_size_change_significant(0, 0));
}

#[test]
fn size_change_threshold_is_five_percent() {
    assert!(!is_data_size_change_significant(100, 95));
    assert!(is_data_size_change_significant(100, 94));
    assert!(!is_data_size_change_significant(95, 100));
    assert!(is_data_size_change_significant(94, 100));
    assert!(!is_data_size_change_significant(u32::MAX, u32::MAX - 1));
}

#[test]
fn visibility_flag_round_trip() {
    for b in [true, false] {
        assert_eq!(DataBlockVisibility::from_flag(b).as_flag(), b);
    }
}

#[test]
fn test_block_header_size_calculation() {
    let header_32 = create_test_header(4, true);
    let header_64 = create_test_header(8, true);

    assert_eq!(block_header_size(&header_32), 20);
    assert_eq!(block_header_size(&header_64), 24);
}

#[test]
fn test_parse_block_header_32bit() {
    let header = create_test_header(4, true);

    let data = [
        b'M', b'E', b'S', b'H', 100, 0, 0, 0, 0x00, 0x10, 0, 0, 1, 0, 0, 0, 1, 0, 0, 0,
    ];

    let (block_header, consumed) = parse_block_header_at(&data, 0, &header).unwrap();

    assert_eq!(&block_header.code, b"MESH");
    assert_eq!(block_header.size, 100);
    assert_eq!(block_header.old_address, 0x1000);
    assert_eq!(block_header.sdna_index, 1);
    assert_eq!(block_header.count, 1);
    assert_eq!(consumed, 20);
}

#[test]
fn test_insufficient_data_error() {
    let header = create_test_header(4, true);
    let data = [1, 2, 3];

    let result = parse_block_header_at(&data, 0, &header);
    assert!(result.is_err());
}

#[test]
fn format_one_block_headers_are_32_bytes() {
    let mut header = create_test_header(8, true);
    header.file_format_version = 1;
    assert_eq!(block_header_size(&header), 32);
    let mut data = b"OB\0\0".to_vec();
    data.extend_from_slice(&7u32.to_le_bytes());
    data.extend_from_slice(&0xABCDu64.to_le_bytes());
    data.extend_from_slice(&16u64.to_le_bytes());
    data.extend_from_slice(&2u64.to_le_bytes());
    let (h, n) = parse_block_header_at(&data, 0, &header).unwrap();
    assert_eq!(n, 32);
    assert_eq!(h.sdna_index, 7);
    assert_eq!(h.old_address, 0xABCD);
    assert_eq!(h.size, 16);
    assert_eq!(h.count, 2);
}

#[test]
fn big_endian_block_header() {
    let header = create_test_header(4, false);
    let data = [b'O', b'B', 0, 0, 0, 0, 0, 8, 0, 0, 0x10, 0, 0, 0, 0, 3, 0, 0, 0, 1];
    let (h, _) = parse_block_header_at(&data, 0, &header).unwrap();
    assert_eq!(h.size, 8);
    assert_eq!(h.old_address, 0x1000);
    assert_eq!(h.sdna_index, 3);
}

#[test]
fn scan_stops_at_endb_and_checks_sizes() {
    let header = create_test_header(4, true);
    let mut data = Vec::new();
    data.extend_from_slice(b"OB\0\0");
    data.extend_from_slice(&4u32.to_le_bytes());
    data.extend_from_slice(&0x10u32.to_le_bytes());
    data.extend_from_slice(&0u32.to_le_bytes());
    data.extend_from_slice(&1u32.to_le_bytes());
    data.extend_from_slice(&[9, 9, 9, 9]);
    data.extend_from_slice(b"ENDB");
    data.extend_from_slice(&[0u8; 16]);
    let blocks = scan_blocks(&data, 0, &header).unwrap();
    assert_eq!(blocks.len(), 1);
    assert_eq!(blocks[0].data_offset, 20);
    assert_eq!(blocks[0].header_offset, 0);
    assert!(scan_blocks(&data[..30], 0, &header).is_err());
    assert!(scan_blocks(&data[..22], 0, &header).is_err());
}

#[test]
fn reads_file_headers() {
    let h = BlendFileHeader::read(b"BLENDER_V279").unwrap();
    assert_eq!(h.pointer_size, 4);
    assert!(!h.is_little_endian);
    assert_eq!(h.version, 279);
    assert_eq!(h.header_size(), 12);
    assert!(h.is_legacy());
    let h = BlendFileHeader::read(b"BLENDER17-01v0405").unwrap();
    assert_eq!(h.file_format_version, 1);
    assert_eq!(h.pointer_size, 8);
    assert!(h.is_little_endian);
    assert_eq!(h.version, 405);
    assert_eq!(h.header_size(), 17);
    assert!(!h.is_legacy());
    assert!(BlendFileHeader::read(b"BLENDIR-v300").is_err());
    assert!(BlendFileHeader::read(b"BLENDER").is_err());
    assert!(BlendFileHeader::read(b"BLENDER-x300").is_err());
}

#[test]
fn header_errors_name_what_was_found() {
    let message = |data: &[u8]| match BlendFileHeader::read(data) {
        Err(Dot001Error::BlendFile { message, .. }) => message,
        other => panic!("unexpected {:?}", other),
    };
    assert_eq!(message(b"BLENDIR-v300"), "Invalid magic bytes: [66, 76, 69, 78, 68, 73, 82]");
    assert_eq!(message(b"BLENDER-x300"), "Invalid endian indicator: x");
    assert_eq!(message(b"BLENDER-v3a0"), "Invalid version number");
    assert_eq!(message(b"BLENDER23-01v0405"), "Unknown header size: 23");
    assert_eq!(message(b"BLENDER17x01v0405"), "Expected '-' separator");
    assert_eq!(message(b"BLENDER17-02v0405"), "Unsupported version: 2");
    assert_eq!(message(b"BLENDER17-01V0405"), "Expected 'v' endian indicator");
    assert_eq!(message(&[66, 76, 69, 78, 68, 69, 82, 45, 118, 0xFF, 48, 48]), "Invalid version format");
    match BlendFileHeader::read(b"BLENDER17-01v04") {
        Err(e) => {
            assert!(e.is_io());
            assert_eq!(e.user_message(), "File operation failed: failed to fill whole buffer");
        }
        Ok(_) => panic!("short header accepted"),
    }
    match BlendFileHeader::read_from_slice(b"BLENDER17-01v04") {
        Err(Dot001Error::BlendFile { message, kind, .. }) => {
            assert_eq!(message, "Header is incomplete");
            assert_eq!(kind, BlendFileErrorKind::InvalidHeader);
        }
        other => panic!("unexpected {:?}", other),
    }
}

#[test]
fn a_header_occupies_its_header_size() {
    let short = BlendFileHeader::read(b"BLENDER_V279").unwrap();
    let long = BlendFileHeader::read(b"BLENDER_V279REND anything").unwrap();
    assert_eq!(short.header_size(), 12);
    assert_eq!((long.version, long.pointer_size, long.is_little_endian), (279, 4, false));
    let v1 = BlendFileHeader::read(b"BLENDER17-01v0500").unwrap();
    let v1_long = BlendFileHeader::read(b"BLENDER17-01v0500xyz").unwrap();
    assert_eq!(v1.header_size(), 17);
    assert_eq!(v1_long.version, 500);
}

#[test]
fn test_bounds_checking() {
    let data = vec![1, 2, 3, 4];
    let dna = empty_dna();

    let view = FieldView::new(&data, &dna, 4, true);

    assert!(view.read_u8(3).is_ok());
    assert!(view.read_u32(0).is_ok());

    assert!(view.read_u8(4).is_err());
    assert!(view.read_u32(1).is_err());
}

#[test]
fn test_endianness() {
    let data = vec![0x01, 0x02, 0x03, 0x04];
    let dna = empty_dna();

    let view_le = FieldView::new(&data, &dna, 4, true);
    let view_be = FieldView::new(&data, &dna, 4, false);

    assert_eq!(view_le.read_u32(0).unwrap(), 0x04030201);
    assert_eq!(view_be.read_u32(0).unwrap(), 0x01020304);
}

#[test]
fn field_view_integer_reads() {
    let data = vec![0x01, 0x02, 0x03, 0x04, 0x05, 0x06, 0x07, 0x08, 0xff, 0xff, 0xff, 0xff];
    let dna = empty_dna();
    let v = FieldView::new(&data, &dna, 8, true);
    assert_eq!(v.read_u8(0).unwrap(), 0x01);
    assert_eq!(v.read_u16(0).unwrap(), 0x0201);
    assert_eq!(v.read_u32(4).unwrap(), 0x08070605);
    assert_eq!(v.read_u64(0).unwrap(), 0x0807060504030201);
    assert_eq!(v.read_i32(8).unwrap(), -1);
    assert_eq!(v.read_pointer(0).unwrap(), 0x0807060504030201);
    assert!(v.read_pointer(8).is_err());
    assert_eq!(v.slice(2, 3).unwrap(), &[0x03, 0x04, 0x05]);
    assert!(v.slice(10, 3).is_err());
    assert_eq!(v.len(), 12);
    assert!(!v.is_empty());
    let v4 = FieldView::new(&data, &dna, 4, true);
    assert_eq!(v4.read_pointer(8).unwrap(), 0xffff_ffff);
    assert!(v4.find_field("Object", "data").is_err());
}

fn thing_dna() -> DnaCollection {
    let field = DnaField { typename: "int".to_string(), name: DnaName::new("count".to_string()), size: 4, offset: 4 };
    let thing = DnaStruct::new_for_test("Thing".to_string(), 8, vec![field]);
    DnaCollection::new_for_test(vec![thing], vec!["int".to_string(), "Thing".to_string()], vec![], vec![4, 8])
}

fn message(e: &dot001::error::Dot001Error) -> String {
    match e {
        dot001::error::Dot001Error::BlendFile { message, .. } => message.clone(),
        _ => String::new(),
    }
}

#[test]
fn named_field_reads_are_the_plain_reads_at_the_field() {
    let dna = thing_dna();
    let data = vec![0, 0, 0, 0, 7, 0, 0, 0];
    let v = FieldView::new(&data, &dna, 8, true);
    assert_eq!(v.read_field_u32("Thing", "count").unwrap(), v.read_u32(4).unwrap());
    assert_eq!(v.read_field_u32("Thing", "count").unwrap(), 7);
    let short = vec![0, 0, 0, 0, 7, 0];
    let w = FieldView::new(&short, &dna, 8, true);
    let e = w.read_field_u32("Thing", "count").unwrap_err();
    assert_eq!(message(&e), message(&w.read_u32(4).unwrap_err()));
    assert_eq!(message(&e), "Offset 4 out of bounds for u32 read");
    assert_eq!(message(&w.read_field_i32("Thing", "count").unwrap_err()), "Offset 4 out of bounds for i32 read");
    assert_eq!(message(&w.read_field_u32("Nope", "count").unwrap_err()), "Struct 'Nope' not found in DNA");
    assert_eq!(message(&w.read_field_u32("Thing", "x").unwrap_err()), "Field 'x' not found in struct 'Thing'");
    assert_eq!(message(&w.read_field_bytes("Thing", "count").unwrap_err()), "Range 4..8 out of bounds for data of length 6");
    let odd = FieldView::new(&data, &dna, 3, true);
    assert_eq!(message(&odd.read_field_pointer("Thing", "count").unwrap_err()), "Invalid pointer size: 3");
    assert_eq!(message(&v.read_u8(9).unwrap_err()), "Offset 9 out of bounds for u8 read");
}
