use oracle_rs::buffer::{ReadBuffer, WriteBuffer};
use oracle_rs::error::ReadError;
use oracle_rs::Error;

#[test]
fn numbers_are_written_most_significant_first() {
    let mut buf = WriteBuffer::with_capacity(16);
    buf.write_u8(1);
    buf.write_u16_be(0x0203);
    buf.write_u32_be(0x0405_0607);
    buf.write_zeros(2);
    buf.write_bytes(b"ab");
    assert_eq!(buf.len(), 11);
    assert_eq!(buf.as_slice(), &[1, 2, 3, 4, 5, 6, 7, 0, 0, b'a', b'b']);
}

#[test]
fn compact_numbers_have_their_forms() {
    let mut buf = WriteBuffer::with_capacity(16);
    buf.write_ub4(0);
    buf.write_ub4(0xff);
    buf.write_ub4(0x100);
    buf.write_ub4(0x1_0000);
    buf.write_ub8(0);
    buf.write_ub8(0x0102_0304_0506_0708);
    let bytes = buf.into_inner();
    assert_eq!(
        bytes,
        vec![
            0, 1, 0xff, 2, 1, 0, 4, 0, 1, 0, 0, 0, 8, 1, 2, 3, 4, 5, 6, 7, 8
        ]
    );
}

#[test]
fn compact_numbers_read_back() {
    for value in [0u32, 1, 0xff, 0x100, 0xffff, 0x1_0000, u32::MAX] {
        let mut buf = WriteBuffer::with_capacity(8);
        buf.write_ub4(value);
        buf.write_u8(0xaa);
        let bytes = buf.into_inner();
        let mut reader = ReadBuffer::from_slice(&bytes);
        assert_eq!(reader.read_ub4().unwrap(), value);
        assert_eq!(reader.read_u8().unwrap(), 0xaa);
        assert!(!reader.has_remaining(1));
    }
}

#[test]
fn byte_strings_read_back() {
    for size in [0usize, 1, 252, 253, 32767, 32768, 70000] {
        let bytes: Vec<u8> = (0..size).map(|i| (i % 251) as u8).collect();
        let mut buf = WriteBuffer::with_capacity(8);
        buf.write_bytes_with_length(&bytes);
        buf.write_u16_be(0x0102);
        let written = buf.into_inner();
        let mut reader = ReadBuffer::from_slice(&written);
        let read = reader.read_bytes_with_length().unwrap();
        if size == 0 {
            assert_eq!(read, None);
        } else {
            assert_eq!(read, Some(bytes));
        }
        assert_eq!(reader.read_u16_be().unwrap(), 0x0102);
    }
}

#[test]
fn failed_reads_leave_the_buffer() {
    let data = [3u8, 1, 2];
    let mut reader = ReadBuffer::from_slice(&data);
    assert!(matches!(reader.read_ub4(), Err(Error::Buffer(ReadError::Truncated))));
    assert!(matches!(reader.read_ub2(), Err(Error::Buffer(ReadError::IntegerTooLong))));
    assert!(matches!(reader.skip_ub4(), Err(Error::Buffer(ReadError::Truncated))));
    assert!(matches!(reader.read_bytes_with_length(), Err(Error::Buffer(ReadError::Truncated))));
    assert!(matches!(reader.read_bytes_vec(4), Err(Error::Buffer(ReadError::Truncated))));
    assert!(matches!(reader.skip(4), Err(Error::Buffer(ReadError::Truncated))));
    assert!(reader.has_remaining(3));
    assert!(reader.skip(1).is_ok());
    assert_eq!(reader.read_bytes_vec(2).unwrap(), vec![1, 2]);
    assert!(matches!(reader.read_u8(), Err(Error::Buffer(ReadError::Truncated))));
    assert!(matches!(reader.read_u16_be(), Err(Error::Buffer(ReadError::Truncated))));
}

#[test]
fn null_byte_string_is_none() {
    let data = [0xffu8, 0, 2, 7, 8];
    let mut reader = ReadBuffer::from_slice(&data);
    assert_eq!(reader.read_bytes_with_length().unwrap(), None);
    assert_eq!(reader.read_bytes_with_length().unwrap(), None);
    assert_eq!(reader.read_bytes_with_length().unwrap(), Some(vec![7, 8]));
}
