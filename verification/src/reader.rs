//! The decoder: a position-tracked cursor over an immutable byte buffer.
//!
//! Every read either consumes exactly the bytes of one wire-format item and
//! returns its value, or returns a failure and leaves the cursor where the
//! failing operation had brought it; callers must not keep reading after a
//! failure.

use vstd::prelude::*;

use crate::error::Error;
use crate::types::{scan_tag, unzigzag, FieldTag, TagScan, WireType};
use crate::varint::{
    group_value, lemma_scan32_value, lemma_scan64_value, lemma_varint32_roundtrip,
    lemma_varint64_roundtrip, scan32, scan64, take_varint, varint_bytes, VarintScan,
};
use vstd::string::StringSliceAdditionalSpecFns;
use vstd::utf8::valid_utf8;

verus! {

/// Reader decodes wire-format data from a borrowed byte buffer.
pub struct Reader<'a> {
    buffer: &'a [u8],
    pos: usize,
}

impl<'a> Reader<'a> {
    /// The whole underlying buffer.
    pub closed spec fn bytes(&self) -> Seq<u8> {
        self.buffer@
    }

    /// The cursor: how many bytes have been consumed.
    pub closed spec fn cursor(&self) -> int {
        self.pos as int
    }

    /// The cursor never passes the end of the buffer.
    pub open spec fn wf(&self) -> bool {
        0 <= self.cursor() <= self.bytes().len()
    }

    /// The bytes not yet consumed.
    pub open spec fn rest(&self) -> Seq<u8> {
        self.bytes().skip(self.cursor())
    }

    /// Creates a reader at the start of a buffer.
    pub fn new(data: &'a [u8]) -> (r: Self)
        ensures
            r.bytes() == data@,
            r.cursor() == 0,
            r.wf(),
    {
        Reader { buffer: data, pos: 0 }
    }

    /// The current position in the buffer.
    pub fn position(&self) -> (r: usize)
        ensures
            r == self.cursor(),
    {
        self.pos
    }

    /// The count of bytes left to read.
    pub fn remaining(&self) -> (r: usize)
        requires
            self.wf(),
        ensures
            r == self.rest().len(),
    {
        self.buffer.len() - self.pos
    }

    /// Whether any bytes are left to read.
    pub fn has_more(&self) -> (r: bool)
        requires
            self.wf(),
        ensures
            r == (self.rest().len() > 0),
    {
        self.pos < self.buffer.len()
    }

    /// Fails with a buffer underflow unless `needed` bytes are left.
    fn check_available(&self, needed: usize) -> (r: Result<(), Error>)
        requires
            self.wf(),
        ensures
            (r is Ok) == (needed <= self.rest().len()),
            !(needed <= self.rest().len()) ==> r == Err::<(), Error>(
                Error::BufferUnderflow { needed, available: self.rest().len() as usize },
            ),
    {
        if needed > self.buffer.len() - self.pos {
            return Err(Error::buffer_underflow(needed, self.buffer.len() - self.pos));
        }
        Ok(())
    }

    /// Reads one raw byte.
    pub fn read_byte(&mut self) -> (r: Result<u8, Error>)
        requires
            old(self).wf(),
        ensures
            final(self).wf(),
            final(self).bytes() == old(self).bytes(),
            old(self).rest().len() >= 1 ==> (r matches Ok(b) && b == old(self).rest()[0]
                && final(self).cursor() == old(self).cursor() + 1),
            old(self).rest().len() == 0 ==> r == Err::<u8, Error>(
                Error::BufferUnderflow { needed: 1, available: 0 },
            ) && final(self).cursor() == old(self).cursor(),
    {
        let checked = self.check_available(1)?;
        let value = self.buffer[self.pos];
        self.pos = self.pos + 1;
        Ok(value)
    }

    /// Reads `length` raw bytes, borrowed from the buffer without copying.
    pub fn read_bytes(&mut self, length: usize) -> (r: Result<&'a [u8], Error>)
        requires
            old(self).wf(),
        ensures
            final(self).wf(),
            final(self).bytes() == old(self).bytes(),
            old(self).rest().len() >= length ==> (r matches Ok(b) && b@ == old(self).rest().take(
                length as int,
            ) && final(self).cursor() == old(self).cursor() + length),
            old(self).rest().len() < length ==> r == Err::<&'a [u8], Error>(
                Error::BufferUnderflow { needed: length, available: old(self).rest().len() as usize },
            ) && final(self).cursor() == old(self).cursor(),
    {
        let buf_len = self.buffer.len();
        let checked = self.check_available(length)?;
        let bytes = vstd::slice::slice_subrange(self.buffer, self.pos, self.pos + length);
        self.pos = self.pos + length;
        proof {
            assert(bytes@ =~= old(self).rest().take(length as int));
        }
        Ok(bytes)
    }

    /// Reads an unsigned 32-bit varint.
    pub fn read_varint(&mut self) -> (r: Result<u32, Error>)
        requires
            old(self).wf(),
        ensures
            final(self).wf(),
            final(self).bytes() == old(self).bytes(),
            (match scan32(old(self).rest()) {
                VarintScan::Found(n) => (r matches Ok(v) && v as nat == group_value(
                    old(self).rest(),
                    n as int,
                ) && final(self).cursor() == old(self).cursor() + n),
                VarintScan::Short => r == Err::<u32, Error>(
                    Error::BufferUnderflow { needed: 1, available: 0 },
                ) && final(self).cursor() == old(self).cursor(),
                VarintScan::TooBig => r == Err::<u32, Error>(Error::VarintOverflow) && final(self).cursor() == old(self).cursor(),
            }),
    {
        let buf_len = self.buffer.len();
        match take_varint(self.buffer, self.pos, 5, 0x10) {
            Ok((v, n)) => {
                proof {
                    if let VarintScan::Found(g) = scan32(old(self).rest()) {
                        lemma_scan32_value(old(self).rest(), g);
                        vstd::arithmetic::div_mod::lemma_small_mod(
                            group_value(old(self).rest(), g as int),
                            0x10000000000000000,
                        );
                    }
                }
                self.pos = self.pos + n;
                Ok(v as u32)
            },
            Err(e) => Err(e),
        }
    }

    /// Reads an unsigned 64-bit varint.
    pub fn read_varint64(&mut self) -> (r: Result<u64, Error>)
        requires
            old(self).wf(),
        ensures
            final(self).wf(),
            final(self).bytes() == old(self).bytes(),
            (match scan64(old(self).rest()) {
                VarintScan::Found(n) => (r matches Ok(v) && v as nat == group_value(
                    old(self).rest(),
                    n as int,
                ) && final(self).cursor() == old(self).cursor() + n),
                VarintScan::Short => r == Err::<u64, Error>(
                    Error::BufferUnderflow { needed: 1, available: 0 },
                ) && final(self).cursor() == old(self).cursor(),
                VarintScan::TooBig => r == Err::<u64, Error>(Error::VarintOverflow) && final(self).cursor() == old(self).cursor(),
            }),
    {
        let buf_len = self.buffer.len();
        match take_varint(self.buffer, self.pos, 10, 0x02) {
            Ok((v, n)) => {
                proof {
                    if let VarintScan::Found(g) = scan64(old(self).rest()) {
                        lemma_scan64_value(old(self).rest(), g);
                        vstd::arithmetic::div_mod::lemma_small_mod(
                            group_value(old(self).rest(), g as int),
                            0x10000000000000000,
                        );
                    }
                }
                self.pos = self.pos + n;
                Ok(v)
            },
            Err(e) => Err(e),
        }
    }

    /// Reads a ZigZag-mapped signed 32-bit varint.
    pub fn read_svarint(&mut self) -> (r: Result<i32, Error>)
        requires
            old(self).wf(),
        ensures
            final(self).wf(),
            final(self).bytes() == old(self).bytes(),
            (match scan32(old(self).rest()) {
                VarintScan::Found(n) => (r matches Ok(v) && v as int == unzigzag(
                    group_value(old(self).rest(), n as int) as int,
                ) && final(self).cursor() == old(self).cursor() + n),
                VarintScan::Short => r == Err::<i32, Error>(
                    Error::BufferUnderflow { needed: 1, available: 0 },
                ) && final(self).cursor() == old(self).cursor(),
                VarintScan::TooBig => r == Err::<i32, Error>(Error::VarintOverflow) && final(self).cursor() == old(self).cursor(),
            }),
    {
        let value = self.read_varint()?;
        Ok(crate::types::zigzag_decode_32(value))
    }

    /// Reads a ZigZag-mapped signed 64-bit varint.
    pub fn read_svarint64(&mut self) -> (r: Result<i64, Error>)
        requires
            old(self).wf(),
        ensures
            final(self).wf(),
            final(self).bytes() == old(self).bytes(),
            (match scan64(old(self).rest()) {
                VarintScan::Found(n) => (r matches Ok(v) && v as int == unzigzag(
                    group_value(old(self).rest(), n as int) as int,
                ) && final(self).cursor() == old(self).cursor() + n),
                VarintScan::Short => r == Err::<i64, Error>(
                    Error::BufferUnderflow { needed: 1, available: 0 },
                ) && final(self).cursor() == old(self).cursor(),
                VarintScan::TooBig => r == Err::<i64, Error>(Error::VarintOverflow) && final(self).cursor() == old(self).cursor(),
            }),
    {
        let value = self.read_varint64()?;
        Ok(crate::types::zigzag_decode_64(value))
    }

    /// Reads one field tag.  The end marker byte decodes to field number
    /// zero; invalid wire-type bits fail carrying the raw tag byte; a
    /// truncated tag fails with a buffer underflow.
    pub fn read_tag(&mut self) -> (r: Result<FieldTag, Error>)
        requires
            old(self).wf(),
        ensures
            final(self).wf(),
            final(self).bytes() == old(self).bytes(),
            (match scan_tag(old(self).rest()) {
                TagScan::End => (r matches Ok(t) && t.field_number == 0 && t.wire_type
                    == WireType::Varint && final(self).cursor() == old(self).cursor() + 1),
                TagScan::Found(f, w, n) => (r matches Ok(t) && t.field_number == f && t.wire_type
                    == w && final(self).cursor() == old(self).cursor() + n),
                TagScan::BadWire => r == Err::<FieldTag, Error>(
                    Error::InvalidWireType(old(self).rest()[0]),
                ) && final(self).cursor() == old(self).cursor(),
                TagScan::Short => r == Err::<FieldTag, Error>(
                    Error::BufferUnderflow { needed: 1, available: 0 },
                ) && final(self).cursor() == old(self).cursor(),
                TagScan::TooBig => r == Err::<FieldTag, Error>(Error::VarintOverflow) && final(self).cursor() == old(self).cursor(),
            }),
    {
        let buf_len = self.buffer.len();
        if self.pos >= buf_len {
            return Err(Error::buffer_underflow(1, 0));
        }
        let tag = self.buffer[self.pos];
        if tag == crate::types::END_MARKER {
            self.pos = self.pos + 1;
            return Ok(FieldTag::new(0, WireType::Varint));
        }
        let wire_type_val = (tag / 2) % 8;
        let w = match WireType::from_u8(wire_type_val) {
            Some(w) => w,
            None => {
                return Err(Error::InvalidWireType(tag));
            },
        };
        if tag % 2 == 0 {
            self.pos = self.pos + 1;
            return Ok(FieldTag::new((tag / 16) as u32, w));
        }
        proof {
            assert(old(self).rest().skip(1) =~= old(self).bytes().skip(old(self).cursor() + 1));
        }
        match take_varint(self.buffer, self.pos + 1, 5, 0x10) {
            Ok((v, n)) => {
                proof {
                    let s = old(self).rest().skip(1);
                    if let VarintScan::Found(g) = scan32(s) {
                        lemma_scan32_value(s, g);
                        vstd::arithmetic::div_mod::lemma_small_mod(
                            group_value(s, g as int),
                            0x10000000000000000,
                        );
                    }
                }
                self.pos = self.pos + 1 + n;
                Ok(FieldTag::new(v as u32, w))
            },
            Err(e) => Err(e),
        }
    }

    /// Looks at the next byte without consuming it: is it the end marker?
    pub fn peek_end_marker(&self) -> (r: bool)
        requires
            self.wf(),
        ensures
            r == (self.rest().len() > 0 && self.rest()[0] == crate::types::END_MARKER),
    {
        self.pos < self.buffer.len() && self.buffer[self.pos] == crate::types::END_MARKER
    }

    /// Whether a decoded tag is the end marker: its field number is zero.
    pub fn is_end_marker(tag: &FieldTag) -> (r: bool)
        ensures
            r == (tag.field_number == 0),
    {
        tag.field_number == 0
    }

    /// Reads a boolean: one byte, true when nonzero.
    pub fn read_bool(&mut self) -> (r: Result<bool, Error>)
        requires
            old(self).wf(),
        ensures
            final(self).wf(),
            final(self).bytes() == old(self).bytes(),
            old(self).rest().len() >= 1 ==> (r matches Ok(b) && b == (old(self).rest()[0] != 0)
                && final(self).cursor() == old(self).cursor() + 1),
            old(self).rest().len() == 0 ==> r == Err::<bool, Error>(
                Error::BufferUnderflow { needed: 1, available: 0 },
            ) && final(self).cursor() == old(self).cursor(),
    {
        let value = self.read_byte()?;
        Ok(value != 0)
    }

    /// Reads a signed 32-bit integer from its wire form, a ZigZag varint.
    pub fn read_int32(&mut self) -> (r: Result<i32, Error>)
        requires
            old(self).wf(),
        ensures
            final(self).wf(),
            final(self).bytes() == old(self).bytes(),
            (match scan32(old(self).rest()) {
                VarintScan::Found(n) => (r matches Ok(v) && v as int == unzigzag(
                    group_value(old(self).rest(), n as int) as int,
                ) && final(self).cursor() == old(self).cursor() + n),
                VarintScan::Short => r == Err::<i32, Error>(
                    Error::BufferUnderflow { needed: 1, available: 0 },
                ) && final(self).cursor() == old(self).cursor(),
                VarintScan::TooBig => r == Err::<i32, Error>(Error::VarintOverflow) && final(self).cursor() == old(self).cursor(),
            }),
    {
        self.read_svarint()
    }

    /// Reads a signed 64-bit integer from its wire form, a ZigZag varint.
    pub fn read_int64(&mut self) -> (r: Result<i64, Error>)
        requires
            old(self).wf(),
        ensures
            final(self).wf(),
            final(self).bytes() == old(self).bytes(),
            (match scan64(old(self).rest()) {
                VarintScan::Found(n) => (r matches Ok(v) && v as int == unzigzag(
                    group_value(old(self).rest(), n as int) as int,
                ) && final(self).cursor() == old(self).cursor() + n),
                VarintScan::Short => r == Err::<i64, Error>(
                    Error::BufferUnderflow { needed: 1, available: 0 },
                ) && final(self).cursor() == old(self).cursor(),
                VarintScan::TooBig => r == Err::<i64, Error>(Error::VarintOverflow) && final(self).cursor() == old(self).cursor(),
            }),
    {
        self.read_svarint64()
    }

    /// Reads an unsigned 32-bit integer from its wire form, a varint.
    pub fn read_uint32(&mut self) -> (r: Result<u32, Error>)
        requires
            old(self).wf(),
        ensures
            final(self).wf(),
            final(self).bytes() == old(self).bytes(),
            (match scan32(old(self).rest()) {
                VarintScan::Found(n) => (r matches Ok(v) && v as nat == group_value(
                    old(self).rest(),
                    n as int,
                ) && final(self).cursor() == old(self).cursor() + n),
                VarintScan::Short => r == Err::<u32, Error>(
                    Error::BufferUnderflow { needed: 1, available: 0 },
                ) && final(self).cursor() == old(self).cursor(),
                VarintScan::TooBig => r == Err::<u32, Error>(Error::VarintOverflow) && final(self).cursor() == old(self).cursor(),
            }),
    {
        self.read_varint()
    }

    /// Reads an unsigned 64-bit integer from its wire form, a varint.
    pub fn read_uint64(&mut self) -> (r: Result<u64, Error>)
        requires
            old(self).wf(),
        ensures
            final(self).wf(),
            final(self).bytes() == old(self).bytes(),
            (match scan64(old(self).rest()) {
                VarintScan::Found(n) => (r matches Ok(v) && v as nat == group_value(
                    old(self).rest(),
                    n as int,
                ) && final(self).cursor() == old(self).cursor() + n),
                VarintScan::Short => r == Err::<u64, Error>(
                    Error::BufferUnderflow { needed: 1, available: 0 },
                ) && final(self).cursor() == old(self).cursor(),
                VarintScan::TooBig => r == Err::<u64, Error>(Error::VarintOverflow) && final(self).cursor() == old(self).cursor(),
            }),
    {
        self.read_varint64()
    }

    /// Reads a fixed 32-bit value: four raw little-endian bytes.
    pub fn read_fixed32(&mut self) -> (r: Result<u32, Error>)
        requires
            old(self).wf(),
        ensures
            final(self).wf(),
            final(self).bytes() == old(self).bytes(),
            old(self).rest().len() >= 4 ==> (r matches Ok(v) && v
                == vstd::bytes::spec_u32_from_le_bytes(old(self).rest().take(4)) && final(self).cursor() == old(self).cursor() + 4),
            old(self).rest().len() < 4 ==> r == Err::<u32, Error>(
                Error::BufferUnderflow { needed: 4, available: old(self).rest().len() as usize },
            ) && final(self).cursor() == old(self).cursor(),
    {
        let bytes = self.read_bytes(4)?;
        Ok(vstd::bytes::u32_from_le_bytes(bytes))
    }

    /// Reads a fixed 64-bit value: eight raw little-endian bytes.
    pub fn read_fixed64(&mut self) -> (r: Result<u64, Error>)
        requires
            old(self).wf(),
        ensures
            final(self).wf(),
            final(self).bytes() == old(self).bytes(),
            old(self).rest().len() >= 8 ==> (r matches Ok(v) && v
                == vstd::bytes::spec_u64_from_le_bytes(old(self).rest().take(8)) && final(self).cursor() == old(self).cursor() + 8),
            old(self).rest().len() < 8 ==> r == Err::<u64, Error>(
                Error::BufferUnderflow { needed: 8, available: old(self).rest().len() as usize },
            ) && final(self).cursor() == old(self).cursor(),
    {
        let bytes = self.read_bytes(8)?;
        Ok(vstd::bytes::u64_from_le_bytes(bytes))
    }

    /// Reads a length-prefixed string: a varint byte length, then that many
    /// bytes, which must be valid UTF-8.
    pub fn read_string(&mut self) -> (r: Result<&'a str, Error>)
        requires
            old(self).wf(),
        ensures
            final(self).wf(),
            final(self).bytes() == old(self).bytes(),
            (match scan32(old(self).rest()) {
                VarintScan::Found(n) => ({
                    let len = group_value(old(self).rest(), n as int) as int;
                    let body = old(self).rest().skip(n as int).take(len);
                    &&& old(self).rest().len() - n >= len ==> {
                        &&& valid_utf8(body) ==> (r matches Ok(s) && s.spec_bytes() == body
                            && final(self).cursor() == old(self).cursor() + n + len)
                        &&& !valid_utf8(body) ==> r == Err::<&'a str, Error>(Error::InvalidUtf8)
                            && final(self).cursor() == old(self).cursor() + n + len
                    }
                    &&& old(self).rest().len() - n < len ==> r == Err::<&'a str, Error>(
                        Error::BufferUnderflow {
                            needed: len as usize,
                            available: (old(self).rest().len() - n) as usize,
                        },
                    ) && final(self).cursor() == old(self).cursor() + n
                }),
                VarintScan::Short => r == Err::<&'a str, Error>(
                    Error::BufferUnderflow { needed: 1, available: 0 },
                ) && final(self).cursor() == old(self).cursor(),
                VarintScan::TooBig => r == Err::<&'a str, Error>(Error::VarintOverflow) && final(self).cursor() == old(self).cursor(),
            }),
    {
        let ghost s0 = old(self).rest();
        let length = self.read_varint()? as usize;
        proof {
            if let VarintScan::Found(n) = scan32(s0) {
                assert(self.rest() =~= s0.skip(n as int));
            }
        }
        let bytes = self.read_bytes(length)?;
        match bytes_as_str(bytes) {
            Some(s) => Ok(s),
            None => Err(Error::InvalidUtf8),
        }
    }

    /// Reads a length-prefixed byte span: a varint length, then that many
    /// raw bytes, borrowed without copying and without validation.
    pub fn read_length_prefixed_bytes(&mut self) -> (r: Result<&'a [u8], Error>)
        requires
            old(self).wf(),
        ensures
            final(self).wf(),
            final(self).bytes() == old(self).bytes(),
            (match scan32(old(self).rest()) {
                VarintScan::Found(n) => ({
                    let len = group_value(old(self).rest(), n as int) as int;
                    &&& old(self).rest().len() - n >= len ==> (r matches Ok(b) && b@ == old(self).rest().skip(n as int).take(len) && final(self).cursor() == old(self).cursor()
                        + n + len)
                    &&& old(self).rest().len() - n < len ==> r == Err::<&'a [u8], Error>(
                        Error::BufferUnderflow {
                            needed: len as usize,
                            available: (old(self).rest().len() - n) as usize,
                        },
                    ) && final(self).cursor() == old(self).cursor() + n
                }),
                VarintScan::Short => r == Err::<&'a [u8], Error>(
                    Error::BufferUnderflow { needed: 1, available: 0 },
                ) && final(self).cursor() == old(self).cursor(),
                VarintScan::TooBig => r == Err::<&'a [u8], Error>(Error::VarintOverflow) && final(self).cursor() == old(self).cursor(),
            }),
    {
        let length = self.read_varint()? as usize;
        self.read_bytes(length)
    }

    /// Skips one field's payload, guided by its wire type: a 64-bit varint
    /// for the varint kinds, eight or four raw bytes for the fixed kinds,
    /// and a length-prefixed span for bytes.
    pub fn skip_field(&mut self, wire_type: WireType) -> (r: Result<(), Error>)
        requires
            old(self).wf(),
        ensures
            final(self).wf(),
            final(self).bytes() == old(self).bytes(),
            wire_type == WireType::Varint || wire_type == WireType::SVarint ==> (match scan64(
                old(self).rest(),
            ) {
                VarintScan::Found(n) => r is Ok && final(self).cursor() == old(self).cursor() + n,
                VarintScan::Short => r == Err::<(), Error>(
                    Error::BufferUnderflow { needed: 1, available: 0 },
                ) && final(self).cursor() == old(self).cursor(),
                VarintScan::TooBig => r == Err::<(), Error>(Error::VarintOverflow) && final(self).cursor() == old(self).cursor(),
            }),
            wire_type == WireType::Fixed64 ==> ({
                &&& old(self).rest().len() >= 8 ==> r is Ok && final(self).cursor() == old(self).cursor() + 8
                &&& old(self).rest().len() < 8 ==> r == Err::<(), Error>(
                    Error::BufferUnderflow {
                        needed: 8,
                        available: old(self).rest().len() as usize,
                    },
                ) && final(self).cursor() == old(self).cursor()
            }),
            wire_type == WireType::Fixed32 ==> ({
                &&& old(self).rest().len() >= 4 ==> r is Ok && final(self).cursor() == old(self).cursor() + 4
                &&& old(self).rest().len() < 4 ==> r == Err::<(), Error>(
                    Error::BufferUnderflow {
                        needed: 4,
                        available: old(self).rest().len() as usize,
                    },
                ) && final(self).cursor() == old(self).cursor()
            }),
            wire_type == WireType::Bytes ==> (match scan32(old(self).rest()) {
                VarintScan::Found(n) => ({
                    let len = group_value(old(self).rest(), n as int) as int;
                    &&& old(self).rest().len() - n >= len ==> r is Ok && final(self).cursor()
                        == old(self).cursor() + n + len
                    &&& old(self).rest().len() - n < len ==> r == Err::<(), Error>(
                        Error::BufferUnderflow {
                            needed: len as usize,
                            available: (old(self).rest().len() - n) as usize,
                        },
                    ) && final(self).cursor() == old(self).cursor() + n
                }),
                VarintScan::Short => r == Err::<(), Error>(
                    Error::BufferUnderflow { needed: 1, available: 0 },
                ) && final(self).cursor() == old(self).cursor(),
                VarintScan::TooBig => r == Err::<(), Error>(Error::VarintOverflow) && final(self).cursor() == old(self).cursor(),
            }),
    {
        let buf_len = self.buffer.len();
        match wire_type {
            WireType::Varint | WireType::SVarint => {
                let skipped = self.read_varint64()?;
                Ok(())
            },
            WireType::Fixed64 => {
                let checked = self.check_available(8)?;
                self.pos = self.pos + 8;
                Ok(())
            },
            WireType::Bytes => {
                let length = self.read_varint()? as usize;
                let checked = self.check_available(length)?;
                self.pos = self.pos + length;
                Ok(())
            },
            WireType::Fixed32 => {
                let checked = self.check_available(4)?;
                self.pos = self.pos + 4;
                Ok(())
            },
        }
    }

    /// Carves an independent reader over the next `length` bytes and
    /// advances past them, for decoding a nested payload without copying.
    pub fn sub_reader(&mut self, length: usize) -> (r: Result<Reader<'a>, Error>)
        requires
            old(self).wf(),
        ensures
            final(self).wf(),
            final(self).bytes() == old(self).bytes(),
            old(self).rest().len() >= length ==> (r matches Ok(sub) && sub.wf() && sub.cursor()
                == 0 && sub.bytes() == old(self).rest().take(length as int) && final(self).cursor()
                == old(self).cursor() + length),
            old(self).rest().len() < length ==> r == Err::<Reader<'a>, Error>(
                Error::BufferUnderflow { needed: length, available: old(self).rest().len() as usize },
            ) && final(self).cursor() == old(self).cursor(),
    {
        let bytes = self.read_bytes(length)?;
        Ok(Reader::new(bytes))
    }
}

/// Relies on std's str::from_utf8: it succeeds exactly on valid UTF-8 and
/// returns the text backed by those same bytes.
#[verifier::external_body]
fn bytes_as_str<'a>(b: &'a [u8]) -> (r: Option<&'a str>)
    ensures
        (r matches Some(s) ==> s.spec_bytes() == b@),
        (r is Some) == valid_utf8(b@),
{
    std::str::from_utf8(b).ok()
}

/// The bytes a field's payload occupies under a wire type: one varint for
/// the varint kinds, eight or four raw bytes for the fixed kinds, and a
/// varint length followed by that many bytes for the bytes kind.
pub open spec fn is_payload(w: WireType, s: Seq<u8>) -> bool {
    match w {
        WireType::Varint | WireType::SVarint => exists|v: u64| s == varint_bytes(v as nat),
        WireType::Fixed64 => s.len() == 8,
        WireType::Fixed32 => s.len() == 4,
        WireType::Bytes => exists|content: Seq<u8>|
            content.len() <= u32::MAX && s == varint_bytes(content.len()) + content,
    }
}

/// Forward compatibility: a decoder that meets a field it does not
/// recognize can discard it by wire type alone.  For every wire type, a
/// payload of that type followed by anything at all scans so that
/// `skip_field` succeeds and consumes exactly the payload, leaving the
/// cursor on the fields that follow.
pub proof fn lemma_skip_field_payload(w: WireType, s: Seq<u8>, rest: Seq<u8>)
    requires
        is_payload(w, s),
    ensures
        w == WireType::Varint || w == WireType::SVarint ==> scan64(s + rest)
            == VarintScan::Found(s.len() as nat),
        w == WireType::Fixed64 ==> (s + rest).len() >= 8 && s.len() == 8,
        w == WireType::Fixed32 ==> (s + rest).len() >= 4 && s.len() == 4,
        w == WireType::Bytes ==> (match scan32(s + rest) {
            VarintScan::Found(n) => n + group_value(s + rest, n as int) == s.len() && (s
                + rest).len() - n >= group_value(s + rest, n as int),
            VarintScan::Short => false,
            VarintScan::TooBig => false,
        }),
{
    match w {
        WireType::Varint | WireType::SVarint => {
            let v = choose|v: u64| s == varint_bytes(v as nat);
            lemma_varint64_roundtrip(v, rest);
            assert(s + rest == varint_bytes(v as nat) + rest);
        },
        WireType::Bytes => {
            let content = choose|c: Seq<u8>|
                c.len() <= u32::MAX && s == varint_bytes(c.len()) + c;
            let len32 = content.len() as u32;
            assert(varint_bytes(content.len()) == varint_bytes(len32 as nat));
            lemma_varint32_roundtrip(len32, content + rest);
            assert(s + rest =~= varint_bytes(len32 as nat) + (content + rest));
            let n = varint_bytes(len32 as nat).len();
            assert(scan32(s + rest) == VarintScan::Found(n as nat));
            assert(group_value(s + rest, n as int) == content.len());
        },
        WireType::Fixed64 => {},
        WireType::Fixed32 => {},
    }
}

} // verus!
