//! Varint, ZigZag and tag codec tests.

use cramberry::types::END_MARKER;
use cramberry::{
    decode_compact_tag, zigzag_decode_32, zigzag_decode_64, zigzag_encode_32, zigzag_encode_64,
    FieldTag, Reader, WireType, Writer,
};

#[test]
fn test_zigzag_encode_32() {
    assert_eq!(zigzag_encode_32(0), 0);
    assert_eq!(zigzag_encode_32(-1), 1);
    assert_eq!(zigzag_encode_32(1), 2);
    assert_eq!(zigzag_encode_32(-2), 3);
    assert_eq!(zigzag_encode_32(2), 4);
}

#[test]
fn test_zigzag_decode_32() {
    assert_eq!(zigzag_decode_32(0), 0);
    assert_eq!(zigzag_decode_32(1), -1);
    assert_eq!(zigzag_decode_32(2), 1);
    assert_eq!(zigzag_decode_32(3), -2);
    assert_eq!(zigzag_decode_32(4), 2);
}

#[test]
fn test_zigzag_64_vectors() {
    assert_eq!(zigzag_encode_64(0), 0);
    assert_eq!(zigzag_encode_64(-1), 1);
    assert_eq!(zigzag_encode_64(1), 2);
    assert_eq!(zigzag_encode_64(-2), 3);
    assert_eq!(zigzag_decode_64(0), 0);
    assert_eq!(zigzag_decode_64(1), -1);
    assert_eq!(zigzag_decode_64(2), 1);
    assert_eq!(zigzag_decode_64(3), -2);
}

#[test]
fn test_zigzag_roundtrip_extremes() {
    for n in [0i32, 1, -1, i32::MIN, i32::MAX, i32::MIN + 1, i32::MAX - 1] {
        assert_eq!(zigzag_decode_32(zigzag_encode_32(n)), n);
    }
    for n in [0i64, 1, -1, i64::MIN, i64::MAX, i64::MIN + 1, i64::MAX - 1] {
        assert_eq!(zigzag_decode_64(zigzag_encode_64(n)), n);
    }
    assert_eq!(zigzag_encode_32(i32::MIN), u32::MAX);
    assert_eq!(zigzag_encode_32(i32::MAX), u32::MAX - 1);
    assert_eq!(zigzag_encode_64(i64::MIN), u64::MAX);
}

#[test]
fn test_compact_tag_field_1_varint() {
    let tag = FieldTag::new(1, WireType::Varint);
    let encoded = tag.encode_compact();
    assert_eq!(encoded.len(), 1);
    // Field 1, wire type 0: (1 << 4) | (0 << 1) | 0 = 0x10
    assert_eq!(encoded[0], 0x10);

    let decoded = decode_compact_tag(&encoded).unwrap();
    assert_eq!(decoded.field_number, 1);
    assert_eq!(decoded.wire_type, WireType::Varint);
    assert_eq!(decoded.bytes_read, 1);
}

#[test]
fn test_compact_tag_field_1_bytes() {
    let tag = FieldTag::new(1, WireType::Bytes);
    let encoded = tag.encode_compact();
    assert_eq!(encoded.len(), 1);
    // Field 1, wire type 2: (1 << 4) | (2 << 1) | 0 = 0x14
    assert_eq!(encoded[0], 0x14);

    let decoded = decode_compact_tag(&encoded).unwrap();
    assert_eq!(decoded.field_number, 1);
    assert_eq!(decoded.wire_type, WireType::Bytes);
}

#[test]
fn test_compact_tag_field_15() {
    let tag = FieldTag::new(15, WireType::SVarint);
    let encoded = tag.encode_compact();
    assert_eq!(encoded.len(), 1);
    // Field 15, wire type 4: (15 << 4) | (4 << 1) | 0 = 0xf8
    assert_eq!(encoded[0], 0xf8);

    let decoded = decode_compact_tag(&encoded).unwrap();
    assert_eq!(decoded.field_number, 15);
    assert_eq!(decoded.wire_type, WireType::SVarint);
}

#[test]
fn test_compact_tag_field_16_extended() {
    let tag = FieldTag::new(16, WireType::Varint);
    let encoded = tag.encode_compact();
    assert_eq!(encoded.len(), 2);
    // Extended: (0 << 1) | 1 = 0x01, then varint 16
    assert_eq!(encoded[0], 0x01);
    assert_eq!(encoded[1], 16);

    let decoded = decode_compact_tag(&encoded).unwrap();
    assert_eq!(decoded.field_number, 16);
    assert_eq!(decoded.wire_type, WireType::Varint);
    assert_eq!(decoded.bytes_read, 2);
}

#[test]
fn test_compact_tag_large_field_number() {
    let tag = FieldTag::new(1000, WireType::SVarint);
    let encoded = tag.encode_compact();
    // Field 1000 needs 2 varint bytes (1000 = 0x3e8)
    assert!(encoded.len() >= 3);

    let decoded = decode_compact_tag(&encoded).unwrap();
    assert_eq!(decoded.field_number, 1000);
    assert_eq!(decoded.wire_type, WireType::SVarint);
}

#[test]
fn test_compact_tag_roundtrip() {
    // Compact format (fields 1-15)
    for field in 1..=15 {
        for wire_type in [
            WireType::Varint,
            WireType::Fixed64,
            WireType::Bytes,
            WireType::Fixed32,
            WireType::SVarint,
        ] {
            let tag = FieldTag::new(field, wire_type);
            let encoded = tag.encode_compact();
            assert_eq!(encoded.len(), 1, "Field {} should be single byte", field);

            let decoded = decode_compact_tag(&encoded).unwrap();
            assert_eq!(decoded.field_number, field);
            assert_eq!(decoded.wire_type, wire_type);
        }
    }

    // Extended format (fields 16+)
    for field in [16, 100, 1000, 10000] {
        for wire_type in [
            WireType::Varint,
            WireType::Fixed64,
            WireType::Bytes,
            WireType::Fixed32,
            WireType::SVarint,
        ] {
            let tag = FieldTag::new(field, wire_type);
            let encoded = tag.encode_compact();
            assert!(encoded.len() >= 2, "Field {} should be extended format", field);

            let decoded = decode_compact_tag(&encoded).unwrap();
            assert_eq!(decoded.field_number, field);
            assert_eq!(decoded.wire_type, wire_type);
        }
    }
}

#[test]
fn test_end_marker() {
    let decoded = decode_compact_tag(&[END_MARKER]).unwrap();
    assert_eq!(decoded.field_number, 0);
    assert_eq!(decoded.bytes_read, 1);
}

#[test]
fn test_end_marker_never_a_field_byte() {
    // No tag of a real field number starts with the reserved zero byte.
    for field in [1u32, 2, 15, 16, 100, 1000] {
        for wire_type in [
            WireType::Varint,
            WireType::Fixed64,
            WireType::Bytes,
            WireType::Fixed32,
            WireType::SVarint,
        ] {
            let encoded = FieldTag::new(field, wire_type).encode_compact();
            assert_ne!(encoded[0], END_MARKER);
        }
    }
}

#[test]
fn test_invalid_wire_type_rejected() {
    // Wire-type bits 5, 6 and 7 are reserved: the decode fails.
    for code in [5u8, 6, 7] {
        let byte = code << 1;
        assert!(decode_compact_tag(&[byte]).is_none());
        assert!(WireType::from_u8(code).is_none());
    }
    let mut reader = Reader::new(&[5u8 << 1]);
    match reader.read_tag() {
        Err(cramberry::Error::InvalidWireType(b)) => assert_eq!(b, 5u8 << 1),
        other => panic!("expected invalid wire type, got {:?}", other),
    }
}

#[test]
fn test_legacy_tag_roundtrip() {
    for field in [1u32, 15, 16, 1000, 100000] {
        for wire_type in [
            WireType::Varint,
            WireType::Fixed64,
            WireType::Bytes,
            WireType::Fixed32,
            WireType::SVarint,
        ] {
            let tag = FieldTag::new(field, wire_type);
            let word = tag.encode();
            let decoded = FieldTag::decode(word).unwrap();
            assert_eq!(decoded.field_number, field);
            assert_eq!(decoded.wire_type, wire_type);
        }
    }
    // The low three bits 5 through 7 name no wire type.
    assert!(FieldTag::decode(5).is_none());
}

#[test]
fn test_varint_known_vectors() {
    let cases: [(u32, &[u8]); 6] = [
        (0, &[0x00]),
        (1, &[0x01]),
        (127, &[0x7f]),
        (128, &[0x80, 0x01]),
        (300, &[0xac, 0x02]),
        (16384, &[0x80, 0x80, 0x01]),
    ];
    for (value, bytes) in cases {
        let mut writer = Writer::new();
        writer.write_varint(value).unwrap();
        assert_eq!(writer.as_bytes(), bytes);
        let mut reader = Reader::new(bytes);
        assert_eq!(reader.read_varint().unwrap(), value);
    }
}

#[test]
fn test_varint64_roundtrip_extremes() {
    for value in [0u64, 1, 127, 128, u32::MAX as u64, u64::MAX - 1, u64::MAX] {
        let mut writer = Writer::new();
        writer.write_varint64(value).unwrap();
        let data = writer.into_bytes();
        assert!(data.len() <= 10);
        let mut reader = Reader::new(&data);
        assert_eq!(reader.read_varint64().unwrap(), value);
        assert!(!reader.has_more());
    }
    // The largest value takes all ten bytes.
    let mut writer = Writer::new();
    writer.write_varint64(u64::MAX).unwrap();
    assert_eq!(writer.len(), 10);
}

#[test]
fn test_varint_overflow_rejected() {
    // A 32-bit varint whose fifth byte carries bits past bit 31.
    let mut reader = Reader::new(&[0x80, 0x80, 0x80, 0x80, 0x10]);
    match reader.read_varint() {
        Err(cramberry::Error::VarintOverflow) => {},
        other => panic!("expected varint overflow, got {:?}", other),
    }
    // A 64-bit varint with a continuation bit on the tenth byte.
    let mut reader = Reader::new(&[0x80, 0x80, 0x80, 0x80, 0x80, 0x80, 0x80, 0x80, 0x80, 0x80]);
    match reader.read_varint64() {
        Err(cramberry::Error::VarintOverflow) => {},
        other => panic!("expected varint overflow, got {:?}", other),
    }
    // A 64-bit varint whose tenth byte carries more than bit 63.
    let mut reader = Reader::new(&[0x80, 0x80, 0x80, 0x80, 0x80, 0x80, 0x80, 0x80, 0x80, 0x02]);
    match reader.read_varint64() {
        Err(cramberry::Error::VarintOverflow) => {},
        other => panic!("expected varint overflow, got {:?}", other),
    }
}

#[test]
fn test_varint_truncation_rejected() {
    // Every proper prefix of a multi-byte varint fails with an underflow.
    let mut writer = Writer::new();
    writer.write_varint(16384).unwrap();
    let data = writer.into_bytes();
    for cut in 0..data.len() {
        let mut reader = Reader::new(&data[..cut]);
        match reader.read_varint() {
            Err(cramberry::Error::BufferUnderflow { needed, available }) => {
                assert_eq!(needed, 1);
                assert_eq!(available, 0);
            },
            other => panic!("expected buffer underflow, got {:?}", other),
        }
    }
}
