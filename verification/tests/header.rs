use muy_zipido::header::classify_signature;
use muy_zipido::header::decode_local_header;
use muy_zipido::header::matches_descriptor_marker;
use muy_zipido::header::LocalFileHeader;
use muy_zipido::header::SignatureKind;

#[test]
fn signatures_are_told_apart() {
    assert_eq!(classify_signature(&[0x50, 0x4b, 0x03, 0x04]), SignatureKind::LocalFile);
    assert_eq!(classify_signature(b"PK\x01\x02"), SignatureKind::CentralDirectory);
    assert_eq!(classify_signature(b"PK\x05\x06"), SignatureKind::EndOfCentralDirectory);
    assert_eq!(classify_signature(b"PK\x07\x08"), SignatureKind::Unknown);
    assert_eq!(classify_signature(b"PK\x03\x05"), SignatureKind::Unknown);
    assert_eq!(classify_signature(b"QK\x03\x04"), SignatureKind::Unknown);
    assert_eq!(classify_signature(b"PK\x03"), SignatureKind::Unknown);
    assert_eq!(classify_signature(b"PK\x03\x04\x00"), SignatureKind::Unknown);
    assert_eq!(classify_signature(b""), SignatureKind::Unknown);
}

#[test]
fn fields_are_little_endian_at_fixed_offsets() {
    let bytes: [u8; 26] = [
        0x14, 0x00, // version
        0x08, 0x08, // flags
        0x08, 0x00, // method
        0x34, 0x12, // time
        0x78, 0x56, // date
        0xef, 0xbe, 0xad, 0xde, // crc
        0x01, 0x02, 0x03, 0x04, // compressed size
        0xff, 0xff, 0xff, 0xff, // uncompressed size
        0x09, 0x01, // name length
        0xfe, 0xff, // extra length
    ];
    let header = decode_local_header(&bytes);
    assert_eq!(
        header,
        LocalFileHeader {
            version_needed: 20,
            flags: 0x0808,
            compression: 8,
            mod_time: 0x1234,
            mod_date: 0x5678,
            crc32: 0xdead_beef,
            compressed_size: 0x0403_0201,
            uncompressed_size: 0xffff_ffff,
            filename_len: 0x0109,
            extra_len: 0xfffe,
        }
    );
    assert!(header.has_data_descriptor());
}

#[test]
fn bytes_after_the_fields_are_not_looked_at() {
    let mut bytes = vec![0u8; 30];
    bytes[4] = 3;
    bytes[26] = 0xaa;
    bytes[29] = 0xbb;
    let header = decode_local_header(&bytes);
    assert_eq!(header.compression, 3);
    assert_eq!(header.extra_len, 0);
    assert!(!header.has_data_descriptor());
}

#[test]
fn only_bit_three_of_the_flags_announces_a_descriptor() {
    let mut bytes = vec![0u8; 26];
    bytes[2] = 0xf7;
    bytes[3] = 0xff;
    assert!(!decode_local_header(&bytes).has_data_descriptor());
    bytes[2] = 0x08;
    bytes[3] = 0x00;
    assert!(decode_local_header(&bytes).has_data_descriptor());
}

#[test]
fn descriptor_marker_is_recognised_exactly() {
    assert!(matches_descriptor_marker(&[0x50, 0x4b, 0x07, 0x08]));
    assert!(!matches_descriptor_marker(&[0x50, 0x4b, 0x07, 0x09]));
    assert!(!matches_descriptor_marker(&[0x50, 0x4b, 0x03, 0x04]));
    assert!(!matches_descriptor_marker(&[0x50, 0x4b, 0x07]));
    assert!(!matches_descriptor_marker(&[0x50, 0x4b, 0x07, 0x08, 0x00]));
    assert!(!matches_descriptor_marker(&[]));
}
