use muy_zipido::read_buffer::ReadBuffer;
use muy_zipido::ZipError;

#[test]
fn reads_are_exact_and_in_stream_order() {
    let mut buffer = ReadBuffer::new();
    assert_eq!(buffer.available(), 0);
    assert_eq!(buffer.require(0), Ok(true));
    assert_eq!(buffer.require(1), Ok(false));
    buffer.supply(&[1, 2, 3]);
    buffer.supply(&[4, 5]);
    assert_eq!(buffer.available(), 5);
    assert_eq!(buffer.require(5), Ok(true));
    assert_eq!(buffer.require(6), Ok(false));
    assert_eq!(buffer.take(2), vec![1, 2]);
    assert_eq!(buffer.take_byte(), 3);
    assert_eq!(buffer.consumed(), 3);
    assert_eq!(buffer.available(), 2);
    buffer.supply(&[6]);
    assert_eq!(buffer.take(3), vec![4, 5, 6]);
    assert_eq!(buffer.take(0), Vec::<u8>::new());
    assert_eq!(buffer.consumed(), 6);
    assert_eq!(buffer.available(), 0);
}

#[test]
fn an_empty_chunk_ends_the_source() {
    let mut buffer = ReadBuffer::new();
    buffer.supply(&[9, 8]);
    assert!(!buffer.is_ended());
    buffer.supply(&[]);
    assert!(buffer.is_ended());
    assert_eq!(buffer.require(2), Ok(true));
    assert_eq!(buffer.require(3), Err(ZipError::UnexpectedEof));
    assert_eq!(buffer.take(2), vec![9, 8]);
    assert_eq!(buffer.require(1), Err(ZipError::UnexpectedEof));
    assert_eq!(buffer.require(0), Ok(true));
}
