//! Registry and polymorphic framing tests.

use cramberry::{Error, Reader, Registry, WireType, Writer};

#[test]
fn test_registry_register() {
    let mut registry = Registry::new();
    let type_id = registry.register("TestMessage");

    assert_eq!(type_id, 128);
    assert!(registry.is_registered("TestMessage"));
    assert!(registry.is_registered_id(128));
    assert_eq!(registry.get_type_id("TestMessage").unwrap(), 128);
    assert_eq!(registry.get_type_name(128).unwrap(), "TestMessage");
}

#[test]
fn test_register_or_get() {
    let mut registry = Registry::new();

    // First registration
    let id1 = registry.register_or_get("TestMessage");
    assert_eq!(id1, 128);

    // Subsequent call returns the same ID
    let id2 = registry.register_or_get("TestMessage");
    assert_eq!(id2, 128);
    assert_eq!(id1, id2);
}

#[test]
fn test_register_with_id_pins_and_advances() {
    let mut registry = Registry::new();
    let id = registry.register_with_id("Pinned", 200);
    assert_eq!(id, 200);
    assert_eq!(registry.get_type_id("Pinned").unwrap(), 200);
    // The automatic counter moves past the pinned id.
    assert_eq!(registry.register("Auto"), 201);
    // A pinned id below the counter leaves the counter alone.
    registry.register_with_id("Low", 130);
    assert_eq!(registry.register("Next"), 202);
}

#[test]
fn test_registry_bijection_on_reregistration() {
    let mut registry = Registry::new();
    registry.register_with_id("A", 128);
    // Re-registering the id moves it to the new name; the old name goes.
    registry.register_with_id("B", 128);
    assert_eq!(registry.get_type_name(128).unwrap(), "B");
    assert!(!registry.is_registered("A"));
    // Re-registering the name moves it to the new id; the old id goes.
    registry.register_with_id("B", 300);
    assert_eq!(registry.get_type_id("B").unwrap(), 300);
    assert!(!registry.is_registered_id(128));
}

#[test]
fn test_registry_lookup_failures() {
    let registry = Registry::new();
    match registry.get_type_id("Missing") {
        Err(Error::TypeNotRegistered(name)) => assert_eq!(name, "Missing"),
        other => panic!("expected type-not-registered, got {:?}", other),
    }
    match registry.get_type_name(500) {
        Err(Error::UnknownTypeId(id)) => assert_eq!(id, 500),
        other => panic!("expected unknown type id, got {:?}", other),
    }
    assert!(!registry.is_registered("Missing"));
    assert!(!registry.is_registered_id(500));
}

#[test]
fn test_registry_clear() {
    let mut registry = Registry::new();
    registry.register("TestMessage");
    registry.clear();
    assert!(!registry.is_registered("TestMessage"));
    // Automatic ids start over at 128.
    assert_eq!(registry.register("TestMessage"), 128);
}

#[test]
fn test_polymorphic_roundtrip() {
    let mut registry = Registry::new();
    registry.register("TestMessage");

    // The payload is itself an encoded message.
    let mut payload_writer = Writer::new();
    payload_writer.write_int32_field(1, -42).unwrap();
    payload_writer.write_string_field(2, "hello").unwrap();
    payload_writer.write_end_marker().unwrap();
    let payload = payload_writer.into_bytes();

    let mut writer = Writer::new();
    registry.encode_polymorphic(&mut writer, 7, "TestMessage", &payload).unwrap();
    let data = writer.into_bytes();

    // An unaware reader sees one ordinary Bytes field it could skip.
    let mut reader = Reader::new(&data);
    let tag = reader.read_tag().unwrap();
    assert_eq!(tag.field_number, 7);
    assert_eq!(tag.wire_type, WireType::Bytes);

    // An aware reader resolves the name and gets the payload back.
    let block = reader.read_length_prefixed_bytes().unwrap();
    let mut block_reader = Reader::new(block);
    let (name, decoded) = registry.decode_polymorphic(&mut block_reader).unwrap();
    assert_eq!(name, "TestMessage");
    assert_eq!(decoded, &payload[..]);

    // The payload decodes to the original fields.
    let mut payload_reader = Reader::new(decoded);
    let tag = payload_reader.read_tag().unwrap();
    assert_eq!(tag.field_number, 1);
    assert_eq!(payload_reader.read_int32().unwrap(), -42);
    let tag = payload_reader.read_tag().unwrap();
    assert_eq!(tag.field_number, 2);
    assert_eq!(payload_reader.read_string().unwrap(), "hello");
}

#[test]
fn test_polymorphic_skippable_by_unaware_reader() {
    let mut registry = Registry::new();
    registry.register("TestMessage");

    let mut writer = Writer::new();
    registry.encode_polymorphic(&mut writer, 9, "TestMessage", b"payload").unwrap();
    writer.write_uint32_field(1, 5).unwrap();
    let data = writer.into_bytes();

    let mut reader = Reader::new(&data);
    let tag = reader.read_tag().unwrap();
    assert_eq!(tag.field_number, 9);
    reader.skip_field(tag.wire_type).unwrap();
    let tag = reader.read_tag().unwrap();
    assert_eq!(tag.field_number, 1);
    assert_eq!(reader.read_uint32().unwrap(), 5);
}

#[test]
fn test_encode_polymorphic_unregistered() {
    let registry = Registry::new();
    let mut writer = Writer::new();
    match registry.encode_polymorphic(&mut writer, 1, "Missing", b"x") {
        Err(Error::TypeNotRegistered(name)) => assert_eq!(name, "Missing"),
        other => panic!("expected type-not-registered, got {:?}", other),
    }
    // Nothing was written.
    assert!(writer.is_empty());
}

#[test]
fn test_decode_polymorphic_unknown_id() {
    let registry = Registry::new();
    let mut writer = Writer::new();
    writer.write_varint(200).unwrap();
    writer.write_length_prefixed_bytes(b"payload").unwrap();
    let data = writer.into_bytes();
    let mut reader = Reader::new(&data);
    match registry.decode_polymorphic(&mut reader) {
        Err(Error::UnknownTypeId(id)) => assert_eq!(id, 200),
        other => panic!("expected unknown type id, got {:?}", other),
    }
}
