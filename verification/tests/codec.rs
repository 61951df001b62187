use raknet_core::buffer::{
    push_address, push_i128, push_i16, push_i32, push_i64, push_i8, push_magic, push_slice,
    push_string, push_u128, push_u16, push_u24, push_u32, push_u64, read_address, read_i128,
    read_i16, read_i32, read_i64, read_magic, read_string, read_u128, read_u16, read_u24,
    read_u32, read_u64,
};
use raknet_core::endpoint::{Endpoint, IpAddress};
use raknet_core::error::DecodeError;

#[test]
fn u16_round_trip_and_layout() {
    let mut buf: Vec<u8> = Vec::new();
    push_u16(&mut buf, 0x1234);
    assert_eq!(buf, vec![0x12, 0x34]);
    assert_eq!(read_u16(&buf, 0), Ok(0x1234));
}

#[test]
fn u24_round_trip_below_limit() {
    for v in [0u32, 1, 255, 256, 0xabcdef, 0xffffff] {
        let mut buf: Vec<u8> = Vec::new();
        push_u24(&mut buf, v);
        assert_eq!(buf.len(), 3);
        assert_eq!(read_u24(&buf, 0), Ok(v));
    }
}

#[test]
fn u24_truncates_high_bits_deterministically() {
    let mut buf: Vec<u8> = Vec::new();
    push_u24(&mut buf, 0x01ff_ffff);
    assert_eq!(read_u24(&buf, 0), Ok(0x00ff_ffff));
    let mut buf2: Vec<u8> = Vec::new();
    push_u24(&mut buf2, 0xaabb_ccdd);
    assert_eq!(read_u24(&buf2, 0), Ok(0x00bb_ccdd));
}

#[test]
fn u32_u64_u128_round_trips() {
    let mut buf: Vec<u8> = Vec::new();
    push_u32(&mut buf, 0xdeadbeef);
    push_u64(&mut buf, 0x0123456789abcdef);
    push_u128(&mut buf, 0x0102030405060708090a0b0c0d0e0f10);
    assert_eq!(read_u32(&buf, 0), Ok(0xdeadbeef));
    assert_eq!(read_u64(&buf, 4), Ok(0x0123456789abcdef));
    assert_eq!(read_u128(&buf, 12), Ok(0x0102030405060708090a0b0c0d0e0f10));
}

#[test]
fn signed_round_trips() {
    let mut buf: Vec<u8> = Vec::new();
    push_i8(&mut buf, -1);
    push_i16(&mut buf, -2);
    push_i32(&mut buf, -70000);
    push_i64(&mut buf, i64::MIN);
    push_i128(&mut buf, i128::MIN + 5);
    assert_eq!(buf[0], 0xff);
    assert_eq!(read_i16(&buf, 1), Ok(-2));
    assert_eq!(read_i32(&buf, 3), Ok(-70000));
    assert_eq!(read_i64(&buf, 7), Ok(i64::MIN));
    assert_eq!(read_i128(&buf, 15), Ok(i128::MIN + 5));
}

#[test]
fn signed_positive_round_trips() {
    let mut buf: Vec<u8> = Vec::new();
    push_i16(&mut buf, 1492);
    push_i64(&mut buf, 7);
    assert_eq!(buf[..2], [0x05, 0xd4]);
    assert_eq!(read_i16(&buf, 0), Ok(1492));
    assert_eq!(read_i64(&buf, 2), Ok(7));
}

#[test]
fn reads_fail_out_of_bounds_instead_of_panicking() {
    let buf: Vec<u8> = vec![1, 2, 3];
    assert_eq!(read_u16(&buf, 2), Err(DecodeError::OutOfBounds));
    assert_eq!(read_u24(&buf, 1), Err(DecodeError::OutOfBounds));
    assert_eq!(read_u32(&buf, 0), Err(DecodeError::OutOfBounds));
    assert_eq!(read_u64(&buf, 0), Err(DecodeError::OutOfBounds));
    assert_eq!(read_u128(&buf, 0), Err(DecodeError::OutOfBounds));
    assert_eq!(read_i16(&buf, 3), Err(DecodeError::OutOfBounds));
    assert_eq!(read_i32(&buf, 0), Err(DecodeError::OutOfBounds));
    assert_eq!(read_i64(&buf, 0), Err(DecodeError::OutOfBounds));
    assert_eq!(read_i128(&buf, 0), Err(DecodeError::OutOfBounds));
    assert_eq!(read_u16(&buf, usize::MAX), Err(DecodeError::OutOfBounds));
}

#[test]
fn magic_cookie_written_and_checked_verbatim() {
    let mut buf: Vec<u8> = Vec::new();
    push_magic(&mut buf);
    assert_eq!(
        buf,
        vec![0x00, 0xff, 0xff, 0x00, 0xfe, 0xfe, 0xfe, 0xfe, 0xfd, 0xfd, 0xfd, 0xfd, 0x12, 0x34, 0x56, 0x78]
    );
    assert!(read_magic(&buf, 0));
    let mut corrupted = buf.clone();
    corrupted[3] = 0x01;
    assert!(!read_magic(&corrupted, 0));
    assert!(!read_magic(&buf, 1));
    assert!(!read_magic(&buf[..15], 0));
}

#[test]
fn string_round_trip_ascii() {
    let mut buf: Vec<u8> = Vec::new();
    push_string(&mut buf, "hello").unwrap();
    assert_eq!(buf, vec![0x00, 0x05, b'h', b'e', b'l', b'l', b'o']);
    assert_eq!(read_string(&buf, 0).unwrap(), "hello");
}

#[test]
fn string_round_trip_multibyte() {
    let mut buf: Vec<u8> = Vec::new();
    push_string(&mut buf, "h\u{e9}llo \u{1f980}").unwrap();
    assert_eq!(read_string(&buf, 0).unwrap(), "h\u{e9}llo \u{1f980}");
}

#[test]
fn string_rejects_invalid_utf8() {
    let buf: Vec<u8> = vec![0x00, 0x02, 0xff, 0xfe];
    assert_eq!(read_string(&buf, 0).unwrap_err(), DecodeError::InvalidUtf8);
}

#[test]
fn string_rejects_truncated_buffer() {
    let buf: Vec<u8> = vec![0x00, 0x10, b'a'];
    assert_eq!(read_string(&buf, 0).unwrap_err(), DecodeError::OutOfBounds);
    assert_eq!(read_string(&[1u8], 0).unwrap_err(), DecodeError::OutOfBounds);
}

#[test]
fn string_too_long_for_length_prefix() {
    let long = "a".repeat(0x10000);
    let mut buf: Vec<u8> = Vec::new();
    assert_eq!(push_string(&mut buf, &long).unwrap_err(), DecodeError::StringTooLong);
    assert!(buf.is_empty());
}

#[test]
fn address_codec_involution() {
    let ep = Endpoint::v4(192, 168, 1, 2, 19132);
    let mut buf: Vec<u8> = Vec::new();
    push_address(&mut buf, ep).unwrap();
    assert_eq!(buf, vec![4, !192u8, !168u8, !1u8, !2u8, 0x4a, 0xbc]);
    assert_eq!(read_address(&buf, 0), Ok(ep));
}

#[test]
fn address_codec_rejects_ipv6() {
    let ep = Endpoint { ip: IpAddress::V6(0, 0, 0, 0, 0, 0, 0, 1), port: 19132 };
    let mut buf: Vec<u8> = Vec::new();
    assert_eq!(push_address(&mut buf, ep).unwrap_err(), DecodeError::UnsupportedAddressFamily);
    assert!(buf.is_empty());
    let wire: Vec<u8> = vec![6, 0, 0, 0, 0, 0, 0];
    assert_eq!(read_address(&wire, 0).unwrap_err(), DecodeError::UnsupportedAddressFamily);
}

#[test]
fn address_codec_rejects_short_buffer() {
    let wire: Vec<u8> = vec![4, 0, 0, 0, 0, 0];
    assert_eq!(read_address(&wire, 0).unwrap_err(), DecodeError::OutOfBounds);
}

#[test]
fn push_slice_appends_verbatim() {
    let mut buf: Vec<u8> = vec![9];
    push_slice(&mut buf, &[1, 2, 3]);
    assert_eq!(buf, vec![9, 1, 2, 3]);
}

#[test]
fn error_labels_are_nonempty() {
    for e in [
        DecodeError::OutOfBounds,
        DecodeError::InvalidUtf8,
        DecodeError::StringTooLong,
        DecodeError::UnsupportedAddressFamily,
        DecodeError::BadBitLength,
        DecodeError::EmptyRecordList,
        DecodeError::TrailingBytes,
    ] {
        assert!(!e.describe().is_empty());
    }
}
