use nvme::codec::{
    bit_field_extract, read_le32, to_u16, to_u32, to_u64, u16_to_bytes, u24_to_bytes, u24_to_u32,
    u32_to_bytes, u64_to_bytes,
};

#[test]
fn decode_u16_little_endian() {
    assert_eq!(to_u16([0x34, 0x12]), 0x1234);
    assert_eq!(to_u16([0x00, 0x00]), 0);
    assert_eq!(to_u16([0xff, 0xff]), 0xffff);
}

#[test]
fn decode_u24_little_endian() {
    assert_eq!(u24_to_u32([0x56, 0x34, 0x12]), 0x123456);
    assert_eq!(u24_to_u32([0xff, 0xff, 0xff]), 0xffffff);
}

#[test]
fn decode_u32_little_endian() {
    assert_eq!(to_u32([0x78, 0x56, 0x34, 0x12]), 0x12345678);
    assert_eq!(to_u32([0x00, 0x00, 0x00, 0x80]), 0x80000000);
}

#[test]
fn decode_u64_little_endian() {
    assert_eq!(
        to_u64([0xef, 0xcd, 0xab, 0x89, 0x67, 0x45, 0x23, 0x01]),
        0x0123456789abcdef
    );
    assert_eq!(to_u64([0xff; 8]), u64::MAX);
}

#[test]
fn encode_u16_bytes() {
    assert_eq!(u16_to_bytes(0x1234), vec![0x34, 0x12]);
}

#[test]
fn round_trip_u16() {
    for x in [0u16, 1, 0x00ff, 0x1234, u16::MAX] {
        let b = u16_to_bytes(x);
        assert_eq!(to_u16([b[0], b[1]]), x);
    }
}

#[test]
fn round_trip_u24() {
    for x in [0u32, 1, 0x123456, 0xffffff] {
        let b = u24_to_bytes(x);
        assert_eq!(u24_to_u32([b[0], b[1], b[2]]), x);
    }
}

#[test]
fn round_trip_u32() {
    for x in [0u32, 1, 0x12345678, u32::MAX] {
        let b = u32_to_bytes(x);
        assert_eq!(to_u32([b[0], b[1], b[2], b[3]]), x);
    }
}

#[test]
fn round_trip_u64() {
    for x in [0u64, 1, 0x0123456789abcdef, u64::MAX] {
        let b = u64_to_bytes(x);
        assert_eq!(to_u64([b[0], b[1], b[2], b[3], b[4], b[5], b[6], b[7]]), x);
    }
}

#[test]
fn extract_low_bits() {
    assert_eq!(bit_field_extract(0b10110100, 3, 0), 0b0100);
}

#[test]
fn extract_high_bits() {
    assert_eq!(bit_field_extract(0b10110100, 7, 4), 0b1011);
}

#[test]
fn extract_full_byte_and_single_bit() {
    assert_eq!(bit_field_extract(0xa5, 7, 0), 0xa5);
    assert_eq!(bit_field_extract(0b00000100, 2, 2), 1);
    assert_eq!(bit_field_extract(0b00000100, 1, 1), 0);
}

#[test]
fn read_le32_at_offset() {
    let mut buf = vec![0u8; 16];
    buf[4] = 0x78;
    buf[5] = 0x56;
    buf[6] = 0x34;
    buf[7] = 0x12;
    assert_eq!(read_le32(&buf, 4), 0x12345678);
}
