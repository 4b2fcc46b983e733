//! Reader and writer cursor tests.

use cramberry::types::END_MARKER;
use cramberry::{Error, Reader, WireType, Writer};

#[test]
fn test_read_varint() {
    let mut reader = Reader::new(&[0]);
    assert_eq!(reader.read_varint().unwrap(), 0);

    let mut reader = Reader::new(&[1]);
    assert_eq!(reader.read_varint().unwrap(), 1);

    let mut reader = Reader::new(&[127]);
    assert_eq!(reader.read_varint().unwrap(), 127);

    let mut reader = Reader::new(&[0x80, 0x01]);
    assert_eq!(reader.read_varint().unwrap(), 128);

    let mut reader = Reader::new(&[0xac, 0x02]);
    assert_eq!(reader.read_varint().unwrap(), 300);
}

#[test]
fn test_read_svarint() {
    let mut reader = Reader::new(&[0]);
    assert_eq!(reader.read_svarint().unwrap(), 0);

    let mut reader = Reader::new(&[1]);
    assert_eq!(reader.read_svarint().unwrap(), -1);

    let mut reader = Reader::new(&[2]);
    assert_eq!(reader.read_svarint().unwrap(), 1);
}

#[test]
fn test_read_string() {
    let mut reader = Reader::new(&[5, b'h', b'e', b'l', b'l', b'o']);
    assert_eq!(reader.read_string().unwrap(), "hello");
}

#[test]
fn test_read_v2_compact_tag() {
    // Field 1, wire type Varint: (1 << 4) | (0 << 1) = 0x10
    let mut reader = Reader::new(&[0x10]);
    let tag = reader.read_tag().unwrap();
    assert_eq!(tag.field_number, 1);
    assert_eq!(tag.wire_type, WireType::Varint);

    // Field 2, wire type SVarint: (2 << 4) | (4 << 1) = 0x28
    let mut reader = Reader::new(&[0x28]);
    let tag = reader.read_tag().unwrap();
    assert_eq!(tag.field_number, 2);
    assert_eq!(tag.wire_type, WireType::SVarint);

    // Field 15, wire type Bytes: (15 << 4) | (2 << 1) = 0xf4
    let mut reader = Reader::new(&[0xf4]);
    let tag = reader.read_tag().unwrap();
    assert_eq!(tag.field_number, 15);
    assert_eq!(tag.wire_type, WireType::Bytes);
}

#[test]
fn test_read_v2_extended_tag() {
    // Field 16, wire type Varint: extended marker + varint 16
    // Extended: (0 << 1) | 1 = 0x01, then varint 16
    let mut reader = Reader::new(&[0x01, 16]);
    let tag = reader.read_tag().unwrap();
    assert_eq!(tag.field_number, 16);
    assert_eq!(tag.wire_type, WireType::Varint);

    // Field 1000, wire type SVarint
    // Extended: (4 << 1) | 1 = 0x09, then varint 1000 (0xe8, 0x07)
    let mut reader = Reader::new(&[0x09, 0xe8, 0x07]);
    let tag = reader.read_tag().unwrap();
    assert_eq!(tag.field_number, 1000);
    assert_eq!(tag.wire_type, WireType::SVarint);
}

#[test]
fn test_read_end_marker() {
    let mut reader = Reader::new(&[END_MARKER]);
    let tag = reader.read_tag().unwrap();
    assert_eq!(tag.field_number, 0);
    assert!(Reader::is_end_marker(&tag));
}

#[test]
fn test_read_write_roundtrip() {
    let mut writer = Writer::new();
    writer.write_int32_field(1, -42).unwrap();
    writer.write_string_field(2, "hello").unwrap();
    writer.write_bool_field(3, true).unwrap();
    writer.write_end_marker().unwrap();

    let data = writer.into_bytes();
    let mut reader = Reader::new(&data);

    let tag1 = reader.read_tag().unwrap();
    assert_eq!(tag1.field_number, 1);
    assert_eq!(tag1.wire_type, WireType::SVarint);
    assert_eq!(reader.read_int32().unwrap(), -42);

    let tag2 = reader.read_tag().unwrap();
    assert_eq!(tag2.field_number, 2);
    assert_eq!(tag2.wire_type, WireType::Bytes);
    assert_eq!(reader.read_string().unwrap(), "hello");

    let tag3 = reader.read_tag().unwrap();
    assert_eq!(tag3.field_number, 3);
    assert_eq!(tag3.wire_type, WireType::Varint);
    assert!(reader.read_bool().unwrap());

    // Read end marker
    let end_tag = reader.read_tag().unwrap();
    assert!(Reader::is_end_marker(&end_tag));

    assert!(!reader.has_more());
}

#[test]
fn test_peek_end_marker() {
    let mut reader = Reader::new(&[0x10, END_MARKER]);

    // First, peek - should not be end marker
    assert!(!reader.peek_end_marker());

    // Read the first tag
    let tag = reader.read_tag().unwrap();
    assert_eq!(tag.field_number, 1);

    // Now peek - should be end marker
    assert!(reader.peek_end_marker());

    // Read it
    let end_tag = reader.read_tag().unwrap();
    assert!(Reader::is_end_marker(&end_tag));
}

#[test]
fn test_write_varint() {
    let mut writer = Writer::new();
    writer.write_varint(0).unwrap();
    assert_eq!(writer.as_bytes(), &[0]);

    let mut writer = Writer::new();
    writer.write_varint(1).unwrap();
    assert_eq!(writer.as_bytes(), &[1]);

    let mut writer = Writer::new();
    writer.write_varint(127).unwrap();
    assert_eq!(writer.as_bytes(), &[127]);

    let mut writer = Writer::new();
    writer.write_varint(128).unwrap();
    assert_eq!(writer.as_bytes(), &[0x80, 0x01]);

    let mut writer = Writer::new();
    writer.write_varint(300).unwrap();
    assert_eq!(writer.as_bytes(), &[0xac, 0x02]);
}

#[test]
fn test_write_svarint() {
    let mut writer = Writer::new();
    writer.write_svarint(0).unwrap();
    assert_eq!(writer.as_bytes(), &[0]);

    let mut writer = Writer::new();
    writer.write_svarint(-1).unwrap();
    assert_eq!(writer.as_bytes(), &[1]);

    let mut writer = Writer::new();
    writer.write_svarint(1).unwrap();
    assert_eq!(writer.as_bytes(), &[2]);
}

#[test]
fn test_write_string() {
    let mut writer = Writer::new();
    writer.write_string("hello").unwrap();
    assert_eq!(writer.as_bytes(), &[5, b'h', b'e', b'l', b'l', b'o']);
}

#[test]
fn test_writer_reset_and_len() {
    let mut writer = Writer::with_capacity(8);
    assert!(writer.is_empty());
    writer.write_byte(0xab).unwrap();
    writer.write_bytes(&[1, 2, 3]).unwrap();
    assert_eq!(writer.len(), 4);
    assert!(!writer.is_empty());
    assert_eq!(writer.as_bytes(), &[0xab, 1, 2, 3]);
    writer.reset();
    assert!(writer.is_empty());
    assert_eq!(writer.len(), 0);
}

#[test]
fn test_reader_position_and_remaining() {
    let data = [1u8, 2, 3, 4];
    let mut reader = Reader::new(&data);
    assert_eq!(reader.position(), 0);
    assert_eq!(reader.remaining(), 4);
    assert!(reader.has_more());
    assert_eq!(reader.read_byte().unwrap(), 1);
    assert_eq!(reader.position(), 1);
    assert_eq!(reader.remaining(), 3);
    assert_eq!(reader.read_bytes(3).unwrap(), &[2, 3, 4]);
    assert!(!reader.has_more());
}

#[test]
fn test_uint64_field_roundtrip() {
    let mut writer = Writer::new();
    writer.write_uint64_field(4, u64::MAX).unwrap();
    let data = writer.into_bytes();
    let mut reader = Reader::new(&data);
    let tag = reader.read_tag().unwrap();
    assert_eq!(tag.field_number, 4);
    assert_eq!(tag.wire_type, WireType::Varint);
    assert_eq!(reader.read_uint64().unwrap(), u64::MAX);
    assert!(!reader.has_more());
}

#[test]
fn test_fixed_roundtrip() {
    let mut writer = Writer::new();
    writer.write_fixed32(0xdeadbeef).unwrap();
    writer.write_fixed64(0x0123456789abcdef).unwrap();
    let data = writer.into_bytes();
    assert_eq!(&data[..4], &[0xef, 0xbe, 0xad, 0xde]);
    assert_eq!(data.len(), 12);
    let mut reader = Reader::new(&data);
    assert_eq!(reader.read_fixed32().unwrap(), 0xdeadbeef);
    assert_eq!(reader.read_fixed64().unwrap(), 0x0123456789abcdef);
}

#[test]
fn test_uint_int_bool_roundtrip() {
    let mut writer = Writer::new();
    writer.write_uint32(300).unwrap();
    writer.write_uint64(1u64 << 40).unwrap();
    writer.write_int32(-7).unwrap();
    writer.write_int64(i64::MIN).unwrap();
    writer.write_bool(false).unwrap();
    writer.write_bool(true).unwrap();
    let data = writer.into_bytes();
    let mut reader = Reader::new(&data);
    assert_eq!(reader.read_uint32().unwrap(), 300);
    assert_eq!(reader.read_uint64().unwrap(), 1u64 << 40);
    assert_eq!(reader.read_int32().unwrap(), -7);
    assert_eq!(reader.read_int64().unwrap(), i64::MIN);
    assert!(!reader.read_bool().unwrap());
    assert!(reader.read_bool().unwrap());
    assert!(!reader.has_more());
}

#[test]
fn test_skip_field_all_wire_types() {
    // A writer emits five fields the decoder does not recognize, then one
    // it does: skipping by wire type alone reaches the known field.
    let mut writer = Writer::new();
    writer.write_uint32_field(21, 300).unwrap();
    writer.write_tag(22, WireType::Fixed64).unwrap();
    writer.write_fixed64(0x1122334455667788).unwrap();
    writer.write_bytes_field(23, b"opaque").unwrap();
    writer.write_tag(24, WireType::Fixed32).unwrap();
    writer.write_fixed32(0x99aabbcc).unwrap();
    writer.write_int64_field(25, -123456789).unwrap();
    writer.write_string_field(1, "known").unwrap();
    let data = writer.into_bytes();

    let mut reader = Reader::new(&data);
    loop {
        let tag = reader.read_tag().unwrap();
        if tag.field_number == 1 {
            assert_eq!(tag.wire_type, WireType::Bytes);
            assert_eq!(reader.read_string().unwrap(), "known");
            break;
        }
        reader.skip_field(tag.wire_type).unwrap();
    }
    assert!(!reader.has_more());
}

#[test]
fn test_read_string_rejects_invalid_utf8() {
    // A length-prefixed span that is not UTF-8 fails as text...
    let mut reader = Reader::new(&[2, 0xff, 0xfe]);
    match reader.read_string() {
        Err(Error::InvalidUtf8) => {},
        other => panic!("expected invalid UTF-8, got {:?}", other),
    }
    // ...but reads fine as raw bytes.
    let mut reader = Reader::new(&[2, 0xff, 0xfe]);
    assert_eq!(reader.read_length_prefixed_bytes().unwrap(), &[0xff, 0xfe]);
}

#[test]
fn test_truncated_fields_fail() {
    // Fixed-width and length-prefixed fields cut short fail with an
    // underflow that reports what was needed and what was available.
    let mut reader = Reader::new(&[1, 2, 3]);
    match reader.read_fixed32() {
        Err(Error::BufferUnderflow { needed, available }) => {
            assert_eq!(needed, 4);
            assert_eq!(available, 3);
        },
        other => panic!("expected buffer underflow, got {:?}", other),
    }
    let mut reader = Reader::new(&[1, 2, 3]);
    match reader.read_fixed64() {
        Err(Error::BufferUnderflow { needed, available }) => {
            assert_eq!(needed, 8);
            assert_eq!(available, 3);
        },
        other => panic!("expected buffer underflow, got {:?}", other),
    }
    let mut reader = Reader::new(&[5, b'h', b'e']);
    match reader.read_string() {
        Err(Error::BufferUnderflow { needed, available }) => {
            assert_eq!(needed, 5);
            assert_eq!(available, 2);
        },
        other => panic!("expected buffer underflow, got {:?}", other),
    }
    let mut reader = Reader::new(&[5, 1, 2]);
    match reader.read_length_prefixed_bytes() {
        Err(Error::BufferUnderflow { needed, available }) => {
            assert_eq!(needed, 5);
            assert_eq!(available, 2);
        },
        other => panic!("expected buffer underflow, got {:?}", other),
    }
}

#[test]
fn test_sub_reader_carves_nested_payload() {
    let mut inner = Writer::new();
    inner.write_uint32_field(1, 7).unwrap();
    let inner_bytes = inner.into_bytes();

    let mut writer = Writer::new();
    writer.write_bytes_field(2, &inner_bytes).unwrap();
    writer.write_uint32_field(3, 9).unwrap();
    let data = writer.into_bytes();

    let mut reader = Reader::new(&data);
    let tag = reader.read_tag().unwrap();
    assert_eq!(tag.field_number, 2);
    let length = reader.read_varint().unwrap() as usize;
    let mut sub = reader.sub_reader(length).unwrap();
    let inner_tag = sub.read_tag().unwrap();
    assert_eq!(inner_tag.field_number, 1);
    assert_eq!(sub.read_uint32().unwrap(), 7);
    assert!(!sub.has_more());

    let tag = reader.read_tag().unwrap();
    assert_eq!(tag.field_number, 3);
    assert_eq!(reader.read_uint32().unwrap(), 9);
}

#[test]
fn test_error_constructors() {
    match Error::buffer_overflow(5, 2) {
        Error::BufferOverflow { needed, available } => {
            assert_eq!(needed, 5);
            assert_eq!(available, 2);
        },
        other => panic!("expected buffer overflow, got {:?}", other),
    }
    match Error::buffer_underflow(9, 4) {
        Error::BufferUnderflow { needed, available } => {
            assert_eq!(needed, 9);
            assert_eq!(available, 4);
        },
        other => panic!("expected buffer underflow, got {:?}", other),
    }
    match Error::custom(String::from("boom")) {
        Error::Custom(message) => assert_eq!(message, "boom"),
        other => panic!("expected custom error, got {:?}", other),
    }
}

#[test]
fn test_marshal_unmarshal_roundtrip() {
    let value: i32 = -42;
    let data = cramberry::marshal(&value, |writer: &mut Writer, v: &i32| {
        writer.write_int32_field(1, *v)?;
        writer.write_end_marker()
    })
    .unwrap();

    let decoded: i32 = cramberry::unmarshal(&data, |reader: &mut Reader| {
        let tag = reader.read_tag()?;
        assert_eq!(tag.field_number, 1);
        reader.read_int32()
    })
    .unwrap();
    assert_eq!(decoded, value);
}
