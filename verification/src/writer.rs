//! The encoder: an append-only buffer of wire-format bytes.

use vstd::prelude::*;

use crate::error::Error;
use crate::types::{tag_bytes, zigzag, FieldTag, WireType};
use crate::varint::{push_varint, varint_bytes};
use vstd::string::StringSliceAdditionalSpecFns;

verus! {

/// Default capacity a fresh writer reserves, to spare early reallocation.
pub const INITIAL_CAPACITY: usize = 256;

/// Writer encodes wire-format data into a growable byte buffer.
///
/// Its view is the sequence of bytes written so far; every write appends and
/// nothing else changes the buffer until `reset` clears it.
pub struct Writer {
    buffer: Vec<u8>,
}

impl View for Writer {
    type V = Seq<u8>;

    closed spec fn view(&self) -> Seq<u8> {
        self.buffer@
    }
}

impl Writer {
    /// Creates an empty writer with the default capacity.
    pub fn new() -> (r: Self)
        ensures
            r@ == Seq::<u8>::empty(),
    {
        Self::with_capacity(INITIAL_CAPACITY)
    }

    /// Creates an empty writer with the given capacity.
    pub fn with_capacity(capacity: usize) -> (r: Self)
        ensures
            r@ == Seq::<u8>::empty(),
    {
        Writer { buffer: Vec::with_capacity(capacity) }
    }

    /// The count of bytes written so far.
    pub fn len(&self) -> (r: usize)
        ensures
            r == self@.len(),
    {
        self.buffer.len()
    }

    /// Whether nothing has been written.
    pub fn is_empty(&self) -> (r: bool)
        ensures
            r == (self@.len() == 0),
    {
        self.buffer.is_empty()
    }

    /// The bytes written so far, borrowed without copying.
    pub fn as_bytes(&self) -> (r: &[u8])
        ensures
            r@ == self@,
    {
        self.buffer.as_slice()
    }

    /// Consumes the writer and hands over its bytes.
    pub fn into_bytes(self) -> (r: Vec<u8>)
        ensures
            r@ == self@,
    {
        self.buffer
    }

    /// Clears the buffer for reuse, keeping its allocation.
    pub fn reset(&mut self)
        ensures
            final(self)@ == Seq::<u8>::empty(),
    {
        self.buffer.clear();
    }

    /// Appends the compact tag of a field number and wire type.  The
    /// reserved field number zero appends nothing.
    pub fn write_tag(&mut self, field_number: u32, wire_type: WireType) -> (r: Result<(), Error>)
        ensures
            r is Ok,
            final(self)@ == old(self)@ + tag_bytes(field_number, wire_type),
    {
        let tag = FieldTag::new(field_number, wire_type);
        let encoded = tag.encode_compact();
        self.buffer.extend_from_slice(encoded.as_slice());
        Ok(())
    }

    /// Appends the end marker byte that closes a field sequence.
    pub fn write_end_marker(&mut self) -> (r: Result<(), Error>)
        ensures
            r is Ok,
            final(self)@ == old(self)@ + seq![crate::types::END_MARKER],
    {
        self.buffer.push(crate::types::END_MARKER);
        Ok(())
    }

    /// Appends one raw byte.
    pub fn write_byte(&mut self, value: u8) -> (r: Result<(), Error>)
        ensures
            r is Ok,
            final(self)@ == old(self)@ + seq![value],
    {
        self.buffer.push(value);
        Ok(())
    }

    /// Appends raw bytes as they are.
    pub fn write_bytes(&mut self, data: &[u8]) -> (r: Result<(), Error>)
        ensures
            r is Ok,
            final(self)@ == old(self)@ + data@,
    {
        self.buffer.extend_from_slice(data);
        Ok(())
    }

    /// Appends an unsigned 32-bit value as a varint.
    pub fn write_varint(&mut self, value: u32) -> (r: Result<(), Error>)
        ensures
            r is Ok,
            final(self)@ == old(self)@ + varint_bytes(value as nat),
    {
        push_varint(&mut self.buffer, value as u64);
        Ok(())
    }

    /// Appends an unsigned 64-bit value as a varint.
    pub fn write_varint64(&mut self, value: u64) -> (r: Result<(), Error>)
        ensures
            r is Ok,
            final(self)@ == old(self)@ + varint_bytes(value as nat),
    {
        push_varint(&mut self.buffer, value);
        Ok(())
    }

    /// Appends a signed 32-bit value as a ZigZag-mapped varint.
    pub fn write_svarint(&mut self, value: i32) -> (r: Result<(), Error>)
        ensures
            r is Ok,
            final(self)@ == old(self)@ + varint_bytes(zigzag(value as int) as nat),
    {
        proof {
            crate::types::lemma_zigzag_range(value as int, 0x80000000);
        }
        self.write_varint(crate::types::zigzag_encode_32(value))
    }

    /// Appends a signed 64-bit value as a ZigZag-mapped varint.
    pub fn write_svarint64(&mut self, value: i64) -> (r: Result<(), Error>)
        ensures
            r is Ok,
            final(self)@ == old(self)@ + varint_bytes(zigzag(value as int) as nat),
    {
        proof {
            crate::types::lemma_zigzag_range(value as int, 0x8000000000000000);
        }
        self.write_varint64(crate::types::zigzag_encode_64(value))
    }

    /// Appends a boolean as one byte: one for true, zero for false.
    pub fn write_bool(&mut self, value: bool) -> (r: Result<(), Error>)
        ensures
            r is Ok,
            final(self)@ == old(self)@ + seq![if value { 1u8 } else { 0u8 }],
    {
        self.write_byte(if value { 1 } else { 0 })
    }

    /// Appends a signed 32-bit integer in its wire form, a ZigZag varint.
    pub fn write_int32(&mut self, value: i32) -> (r: Result<(), Error>)
        ensures
            r is Ok,
            final(self)@ == old(self)@ + varint_bytes(zigzag(value as int) as nat),
    {
        self.write_svarint(value)
    }

    /// Appends a signed 64-bit integer in its wire form, a ZigZag varint.
    pub fn write_int64(&mut self, value: i64) -> (r: Result<(), Error>)
        ensures
            r is Ok,
            final(self)@ == old(self)@ + varint_bytes(zigzag(value as int) as nat),
    {
        self.write_svarint64(value)
    }

    /// Appends an unsigned 32-bit integer in its wire form, a varint.
    pub fn write_uint32(&mut self, value: u32) -> (r: Result<(), Error>)
        ensures
            r is Ok,
            final(self)@ == old(self)@ + varint_bytes(value as nat),
    {
        self.write_varint(value)
    }

    /// Appends an unsigned 64-bit integer in its wire form, a varint.
    pub fn write_uint64(&mut self, value: u64) -> (r: Result<(), Error>)
        ensures
            r is Ok,
            final(self)@ == old(self)@ + varint_bytes(value as nat),
    {
        self.write_varint64(value)
    }

    /// Appends a 32-bit value as four raw little-endian bytes.
    pub fn write_fixed32(&mut self, value: u32) -> (r: Result<(), Error>)
        ensures
            r is Ok,
            final(self)@ == old(self)@ + vstd::bytes::spec_u32_to_le_bytes(value),
    {
        let bytes = vstd::bytes::u32_to_le_bytes(value);
        self.buffer.extend_from_slice(bytes.as_slice());
        Ok(())
    }

    /// Appends a 64-bit value as eight raw little-endian bytes.
    pub fn write_fixed64(&mut self, value: u64) -> (r: Result<(), Error>)
        ensures
            r is Ok,
            final(self)@ == old(self)@ + vstd::bytes::spec_u64_to_le_bytes(value),
    {
        let bytes = vstd::bytes::u64_to_le_bytes(value);
        self.buffer.extend_from_slice(bytes.as_slice());
        Ok(())
    }

    /// Appends a string as a varint byte length followed by its UTF-8
    /// bytes.  The length must fit the 32-bit varint of the wire format.
    pub fn write_string(&mut self, value: &str) -> (r: Result<(), Error>)
        requires
            value.spec_bytes().len() <= u32::MAX,
        ensures
            r is Ok,
            final(self)@ == old(self)@ + varint_bytes(value.spec_bytes().len() as nat)
                + value.spec_bytes(),
    {
        let bytes = value.as_bytes();
        let prefixed = self.write_varint(bytes.len() as u32);
        self.buffer.extend_from_slice(bytes);
        prefixed
    }

    /// Appends a byte span as a varint length followed by the raw bytes.
    /// The length must fit the 32-bit varint of the wire format.
    pub fn write_length_prefixed_bytes(&mut self, data: &[u8]) -> (r: Result<(), Error>)
        requires
            data@.len() <= u32::MAX,
        ensures
            r is Ok,
            final(self)@ == old(self)@ + varint_bytes(data@.len() as nat) + data@,
    {
        let prefixed = self.write_varint(data.len() as u32);
        self.buffer.extend_from_slice(data);
        prefixed
    }

    /// Appends a tagged boolean field.
    pub fn write_bool_field(&mut self, field_number: u32, value: bool) -> (r: Result<(), Error>)
        ensures
            r is Ok,
            final(self)@ == old(self)@ + tag_bytes(field_number, WireType::Varint)
                + seq![if value { 1u8 } else { 0u8 }],
    {
        let tagged = self.write_tag(field_number, WireType::Varint);
        self.write_bool(value)
    }

    /// Appends a tagged signed 32-bit field as a ZigZag varint.
    pub fn write_int32_field(&mut self, field_number: u32, value: i32) -> (r: Result<(), Error>)
        ensures
            r is Ok,
            final(self)@ == old(self)@ + tag_bytes(field_number, WireType::SVarint)
                + varint_bytes(zigzag(value as int) as nat),
    {
        let tagged = self.write_tag(field_number, WireType::SVarint);
        self.write_int32(value)
    }

    /// Appends a tagged signed 64-bit field as a ZigZag varint.
    pub fn write_int64_field(&mut self, field_number: u32, value: i64) -> (r: Result<(), Error>)
        ensures
            r is Ok,
            final(self)@ == old(self)@ + tag_bytes(field_number, WireType::SVarint)
                + varint_bytes(zigzag(value as int) as nat),
    {
        let tagged = self.write_tag(field_number, WireType::SVarint);
        self.write_int64(value)
    }

    /// Appends a tagged unsigned 32-bit field as a varint.
    pub fn write_uint32_field(&mut self, field_number: u32, value: u32) -> (r: Result<(), Error>)
        ensures
            r is Ok,
            final(self)@ == old(self)@ + tag_bytes(field_number, WireType::Varint)
                + varint_bytes(value as nat),
    {
        let tagged = self.write_tag(field_number, WireType::Varint);
        self.write_uint32(value)
    }

    /// Appends a tagged unsigned 64-bit field as a varint.
    pub fn write_uint64_field(&mut self, field_number: u32, value: u64) -> (r: Result<(), Error>)
        ensures
            r is Ok,
            final(self)@ == old(self)@ + tag_bytes(field_number, WireType::Varint)
                + varint_bytes(value as nat),
    {
        let tagged = self.write_tag(field_number, WireType::Varint);
        self.write_uint64(value)
    }

    /// Appends a tagged string field: tag, varint byte length, UTF-8 bytes.
    pub fn write_string_field(&mut self, field_number: u32, value: &str) -> (r: Result<(), Error>)
        requires
            value.spec_bytes().len() <= u32::MAX,
        ensures
            r is Ok,
            final(self)@ == old(self)@ + tag_bytes(field_number, WireType::Bytes)
                + varint_bytes(value.spec_bytes().len() as nat) + value.spec_bytes(),
    {
        let tagged = self.write_tag(field_number, WireType::Bytes);
        self.write_string(value)
    }

    /// Appends a tagged byte-span field: tag, varint length, raw bytes.
    pub fn write_bytes_field(&mut self, field_number: u32, value: &[u8]) -> (r: Result<(), Error>)
        requires
            value@.len() <= u32::MAX,
        ensures
            r is Ok,
            final(self)@ == old(self)@ + tag_bytes(field_number, WireType::Bytes)
                + varint_bytes(value@.len() as nat) + value@,
    {
        let tagged = self.write_tag(field_number, WireType::Bytes);
        self.write_length_prefixed_bytes(value)
    }
}

impl Default for Writer {
    /// An empty writer with the default capacity.
    fn default() -> (r: Self)
        ensures
            r@ == Seq::<u8>::empty(),
    {
        Self::new()
    }
}

} // verus!
