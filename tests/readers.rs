use rustxtf::{
    read_and_decode_byte_as_number_u8, read_and_decode_bytes_as_string, read_double,
    read_float_from_binary_at_offset, read_unsigned_long, read_unsigned_short, DecodeError,
};

#[test]
fn byte_reads_the_byte_at_offset() {
    let data = vec![1u8, 2, 3];
    assert_eq!(read_and_decode_byte_as_number_u8(&data, 2), Ok(3));
    assert_eq!(read_and_decode_byte_as_number_u8(&data, 3), Err(DecodeError::TruncatedRecord));
}

#[test]
fn short_is_little_endian_at_unaligned_offset() {
    let data = vec![0u8, 0x34, 0x12, 0xFF];
    assert_eq!(read_unsigned_short(&data, 1), Ok(0x1234));
    assert_eq!(read_unsigned_short(&data, 2), Ok(0xFF12));
}

#[test]
fn short_truncated_iff_past_end() {
    let data = vec![0u8, 1, 2];
    assert!(read_unsigned_short(&data, 1).is_ok());
    assert_eq!(read_unsigned_short(&data, 2), Err(DecodeError::TruncatedRecord));
    assert_eq!(read_unsigned_short(&data, usize::MAX), Err(DecodeError::TruncatedRecord));
}

#[test]
fn long_is_little_endian() {
    let data = vec![0x78u8, 0x56, 0x34, 0x12];
    assert_eq!(read_unsigned_long(&data, 0), Ok(0x1234_5678));
    assert_eq!(read_unsigned_long(&data, 1), Err(DecodeError::TruncatedRecord));
}

#[test]
fn float_bits_decode_to_the_float() {
    let data = 1.5f32.to_le_bytes().to_vec();
    let bits = read_float_from_binary_at_offset(&data, 0).unwrap();
    assert_eq!(f32::from_bits(bits), 1.5);
    assert_eq!(read_float_from_binary_at_offset(&data, 1), Err(DecodeError::TruncatedRecord));
}

#[test]
fn double_bits_decode_to_the_double() {
    let mut data = vec![9u8];
    data.extend_from_slice(&(-2.25f64).to_le_bytes());
    let bits = read_double(&data, 1).unwrap();
    assert_eq!(f64::from_bits(bits), -2.25);
    assert_eq!(read_double(&data, 2), Err(DecodeError::TruncatedRecord));
}

#[test]
fn text_drops_every_null_byte() {
    let data = vec![b'x', b'a', 0, b'b', 0, b'c', 0, 0];
    assert_eq!(read_and_decode_bytes_as_string(&data, 1, 7), Ok("abc".to_string()));
}

#[test]
fn text_of_nulls_only_is_empty() {
    let data = vec![0u8; 16];
    assert_eq!(read_and_decode_bytes_as_string(&data, 0, 16), Ok(String::new()));
    assert_eq!(read_and_decode_bytes_as_string(&data, 0, 16), Ok(String::new()));
}

#[test]
fn text_decodes_utf8() {
    let mut data = "h\u{e9}".as_bytes().to_vec();
    data.push(0);
    assert_eq!(read_and_decode_bytes_as_string(&data, 0, 4), Ok("h\u{e9}".to_string()));
}

#[test]
fn text_rejects_invalid_utf8() {
    let data = vec![b'a', 0xFF, 0];
    assert_eq!(read_and_decode_bytes_as_string(&data, 0, 3), Err(DecodeError::InvalidText));
}

#[test]
fn text_truncated_past_end() {
    let data = vec![b'a', b'b'];
    assert_eq!(read_and_decode_bytes_as_string(&data, 1, 2), Err(DecodeError::TruncatedRecord));
    assert_eq!(read_and_decode_bytes_as_string(&data, 2, 0), Ok(String::new()));
}
