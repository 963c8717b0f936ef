use bytes::BytesMut;
use rumqtt_bytes::{Error, VarInt};

struct TestCase {
    bytes: Vec<u8>,
    value: usize,
    length: usize,
}

fn test_cases() -> Vec<TestCase> {
    vec![
        TestCase { bytes: vec![0x00], value: 0, length: 1 },
        TestCase { bytes: vec![0x7F], value: 127, length: 1 },
        TestCase { bytes: vec![0x80, 0x01], value: 128, length: 2 },
        TestCase { bytes: vec![0xFF, 0x7F], value: 16_383, length: 2 },
        TestCase { bytes: vec![0x80, 0x80, 0x01], value: 16_384, length: 3 },
        TestCase { bytes: vec![0xFF, 0xFF, 0x7F], value: 2_097_151, length: 3 },
        TestCase { bytes: vec![0x80, 0x80, 0x80, 0x01], value: 2_097_152, length: 4 },
        TestCase { bytes: vec![0xFF, 0xFF, 0xFF, 0x7F], value: 268_435_455, length: 4 },
    ]
}

#[test]
fn test_varint_read() {
    for case in test_cases() {
        let varint = VarInt::read(&case.bytes).unwrap();
        assert_eq!(varint.value(), case.value);
        assert_eq!(varint.length(), case.length);
    }
}

#[test]
fn test_varint_read_unsufficient() {
    let stream = [0x80, 0x80];
    assert!(matches!(VarInt::read(&stream), Err(Error::InsufficientBytes(1))));
}

#[test]
fn test_varint_read_malformed() {
    let stream = [0x80, 0x80, 0x80, 0x80];
    assert!(matches!(VarInt::read(&stream), Err(Error::MalformedRemainingLength)));
}

#[test]
fn test_varint_write() {
    for case in test_cases() {
        let mut stream = BytesMut::new();
        let varint = VarInt::new(case.value).unwrap();
        assert_eq!(varint.length(), case.length);
        varint.write(&mut stream);
        assert_eq!(stream, case.bytes);
    }
}

#[test]
fn varint_new_rejects_values_past_the_largest() {
    assert!(matches!(VarInt::new(268_435_456), Err(Error::PayloadTooLong)));
    assert_eq!(VarInt::new(268_435_455).unwrap().length(), 4);
}

#[test]
fn varint_read_of_empty_stream_asks_for_a_byte() {
    let stream: [u8; 0] = [];
    assert!(matches!(VarInt::read(&stream), Err(Error::InsufficientBytes(1))));
}

#[test]
fn varint_read_stops_at_the_first_byte_without_continuation() {
    let stream = [0x81, 0x01, 0xFF, 0xFF];
    let v = VarInt::read(&stream).unwrap();
    assert_eq!(v.value(), 129);
    assert_eq!(v.length(), 2);
}

#[test]
fn varint_read_keeps_a_longer_than_needed_encoding() {
    // 0 written in two bytes reads back with its length
    let stream = [0x80, 0x00];
    let v = VarInt::read(&stream).unwrap();
    assert_eq!(v.value(), 0);
    assert_eq!(v.length(), 2);
}

#[test]
fn varint_constant_and_comparisons() {
    let v = VarInt::constant(300);
    assert_eq!(v.value(), 300);
    assert_eq!(v.length(), 2);
    assert!(v == 300usize);
    assert!(v != 301usize);
    assert!(v < 301usize);
    assert!(v > 299usize);
    assert_eq!(u32::from(v), 300);
}

#[test]
fn varint_roundtrip_on_boundaries() {
    for value in [0usize, 1, 127, 128, 16_383, 16_384, 2_097_151, 2_097_152, 268_435_455] {
        let mut stream = BytesMut::new();
        VarInt::new(value).unwrap().write(&mut stream);
        let back = VarInt::read(&stream[..]).unwrap();
        assert_eq!(back.value(), value);
        assert_eq!(back.length(), stream.len());
    }
}
