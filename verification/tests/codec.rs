use muy_zipido::codec::decompress;
use muy_zipido::ZipError;
use std::io::Write;

fn deflate(content: &[u8]) -> Vec<u8> {
    let mut encoder =
        flate2::write::DeflateEncoder::new(Vec::new(), flate2::Compression::best());
    encoder.write_all(content).unwrap();
    encoder.finish().unwrap()
}

#[test]
fn store_hands_the_bytes_back() {
    assert_eq!(decompress(0, vec![1, 2, 3]), Ok(vec![1, 2, 3]));
    assert_eq!(decompress(0, Vec::new()), Ok(Vec::new()));
}

#[test]
fn deflate_inflates() {
    let content = b"to be or not to be, that is the question".to_vec();
    let compressed = deflate(&content);
    assert_ne!(compressed, content);
    assert_eq!(decompress(8, compressed), Ok(content));
    // A stored block of three bytes, written out by hand.
    let stored_block = vec![0x01, 0x03, 0x00, 0xfc, 0xff, b'a', b'b', b'c'];
    assert_eq!(decompress(8, stored_block), Ok(b"abc".to_vec()));
}

#[test]
fn deflate_rejects_what_is_no_deflate_stream() {
    assert!(matches!(decompress(8, vec![0xff; 8]), Err(ZipError::Decompression(_))));
    assert!(matches!(decompress(8, Vec::new()), Err(ZipError::Decompression(_))));
    let mut cut = deflate(&[7u8; 4000]);
    cut.truncate(cut.len() / 2);
    assert!(matches!(decompress(8, cut), Err(ZipError::Decompression(_))));
}

#[test]
fn other_methods_are_refused_by_number() {
    assert_eq!(decompress(3, vec![1]), Err(ZipError::UnsupportedMethod(3)));
    assert_eq!(decompress(1, Vec::new()), Err(ZipError::UnsupportedMethod(1)));
    assert_eq!(decompress(9, vec![1]), Err(ZipError::UnsupportedMethod(9)));
    assert_eq!(decompress(65535, vec![1]), Err(ZipError::UnsupportedMethod(65535)));
}
