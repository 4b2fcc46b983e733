//! Wire format types: wire types, field tags and the ZigZag mapping.
//!
//! A field tag packs a field number and a wire type.  For field numbers 1
//! through 15 the tag is one byte laid out as `[field:4][wire:3][ext:0]`;
//! for larger numbers a marker byte `[0:4][wire:3][ext:1]` is followed by
//! the field number as a varint.  The single byte `0x00` is the end marker
//! that closes a field sequence and never names a field.

use vstd::prelude::*;

use crate::error::Error;
use crate::varint::{
    group_value, lemma_scan32_value, lemma_scan_found_facts, lemma_varint32_roundtrip,
    lemma_varint_bytes_shape, scan32, take_varint, varint_bytes, VarintScan,
};

verus! {

/// The end marker byte that closes a sequence of fields.
pub const END_MARKER: u8 = 0x00;

/// Bit 0 of a tag byte: set when the field number follows as a varint.
pub const TAG_EXTENDED_BIT: u8 = 0x01;

/// Bits 1 through 3 of a tag byte: the wire type.
pub const TAG_WIRE_TYPE_MASK: u8 = 0x0e;

/// Shift that brings the wire type down from its bit position.
pub const TAG_WIRE_TYPE_SHIFT: u8 = 1;

/// Shift that brings the field number down from its bit position.
pub const TAG_FIELD_NUM_SHIFT: u8 = 4;

/// Largest field number that fits a single-byte tag.
pub const MAX_COMPACT_FIELD_NUM: u32 = 15;

/// Numeric identifier of a registered payload shape.
pub type TypeId = u32;

/// Physical layout of a field's payload.
#[derive(Debug, Clone, Copy, PartialEq, Eq, Structural)]
pub enum WireType {
    /// Variable-length unsigned integer (LEB128).
    Varint,
    /// Fixed 64-bit value, little-endian.
    Fixed64,
    /// Length-prefixed bytes.
    Bytes,
    /// Fixed 32-bit value, little-endian.
    Fixed32,
    /// ZigZag-mapped signed integer as a varint.
    SVarint,
}

/// The three-bit code of a wire type on the wire.
pub open spec fn wire_code(w: WireType) -> nat {
    match w {
        WireType::Varint => 0,
        WireType::Fixed64 => 1,
        WireType::Bytes => 2,
        WireType::Fixed32 => 3,
        WireType::SVarint => 4,
    }
}

/// The wire type a three-bit code names, if any; codes 5 through 7 are
/// reserved and name none.
pub open spec fn wire_type_of(code: u8) -> Option<WireType> {
    if code == 0 {
        Some(WireType::Varint)
    } else if code == 1 {
        Some(WireType::Fixed64)
    } else if code == 2 {
        Some(WireType::Bytes)
    } else if code == 3 {
        Some(WireType::Fixed32)
    } else if code == 4 {
        Some(WireType::SVarint)
    } else {
        None
    }
}

impl WireType {
    /// Converts a raw code to a wire type; codes 5 through 255 are invalid.
    pub fn from_u8(value: u8) -> (r: Option<Self>)
        ensures
            r == wire_type_of(value),
    {
        match value {
            0 => Some(WireType::Varint),
            1 => Some(WireType::Fixed64),
            2 => Some(WireType::Bytes),
            3 => Some(WireType::Fixed32),
            4 => Some(WireType::SVarint),
            _ => None,
        }
    }

    /// The three-bit code this wire type takes on the wire.
    pub(crate) fn code(self) -> (r: u8)
        ensures
            r as nat == wire_code(self),
    {
        match self {
            WireType::Varint => 0,
            WireType::Fixed64 => 1,
            WireType::Bytes => 2,
            WireType::Fixed32 => 3,
            WireType::SVarint => 4,
        }
    }
}

/// The ZigZag mapping from signed to unsigned integers: small magnitudes of
/// either sign land on small unsigned values.
pub open spec fn zigzag(n: int) -> int {
    if n >= 0 {
        2 * n
    } else {
        -2 * n - 1
    }
}

/// The inverse ZigZag mapping.
pub open spec fn unzigzag(u: int) -> int {
    if u % 2 == 0 {
        u / 2
    } else {
        -(u / 2) - 1
    }
}

/// Round trip of the ZigZag mapping: decoding the encoding of any signed
/// integer, the extremes included, gives the integer back.
pub proof fn lemma_zigzag_roundtrip(n: int)
    ensures
        unzigzag(zigzag(n)) == n,
        n >= 0 ==> zigzag(n) == 2 * n,
        n < 0 ==> zigzag(n) == -2 * n - 1,
{
    if n >= 0 {
        assert((2 * n) % 2 == 0 && (2 * n) / 2 == n) by (nonlinear_arith);
    } else {
        let u = -2 * n - 1;
        assert(u == 2 * (-n - 1) + 1);
        assert((2 * (-n - 1) + 1) % 2 == 1 && (2 * (-n - 1) + 1) / 2 == -n - 1)
            by (nonlinear_arith);
    }
}

/// The ZigZag mapping stays within the matching unsigned range.
pub proof fn lemma_zigzag_range(n: int, half: int)
    requires
        -half <= n < half,
        half >= 1,
    ensures
        0 <= zigzag(n) < 2 * half,
{
}

/// Maps a 32-bit signed integer to its ZigZag unsigned form.
pub fn zigzag_encode_32(n: i32) -> (r: u32)
    ensures
        r as int == zigzag(n as int),
{
    if n >= 0 {
        (n as u32) * 2
    } else {
        let m: i64 = -(n as i64) - 1;
        (m as u32) * 2 + 1
    }
}

/// Maps a 64-bit signed integer to its ZigZag unsigned form.
pub fn zigzag_encode_64(n: i64) -> (r: u64)
    ensures
        r as int == zigzag(n as int),
{
    if n >= 0 {
        (n as u64) * 2
    } else {
        let m: i64 = -(n + 1);
        (m as u64) * 2 + 1
    }
}

/// Maps a ZigZag unsigned form back to the 32-bit signed integer.
pub fn zigzag_decode_32(u: u32) -> (r: i32)
    ensures
        r as int == unzigzag(u as int),
{
    let half = u / 2;
    if u % 2 == 0 {
        half as i32
    } else {
        -(half as i32) - 1
    }
}

/// Maps a ZigZag unsigned form back to the 64-bit signed integer.
pub fn zigzag_decode_64(u: u64) -> (r: i64)
    ensures
        r as int == unzigzag(u as int),
{
    let half = u / 2;
    if u % 2 == 0 {
        half as i64
    } else {
        -(half as i64) - 1
    }
}

/// A field number paired with the wire type of its payload.
#[derive(Debug, Clone, Copy, PartialEq, Eq, Structural)]
pub struct FieldTag {
    pub field_number: u32,
    pub wire_type: WireType,
}

/// The bytes a field tag takes on the wire: nothing for the reserved field
/// number zero, one packed byte for field numbers 1 through 15, and a marker
/// byte followed by the field number as a varint for larger numbers.
pub open spec fn tag_bytes(f: u32, w: WireType) -> Seq<u8> {
    if f == 0 {
        Seq::empty()
    } else if f <= 15 {
        seq![((f as nat) * 16 + wire_code(w) * 2) as u8]
    } else {
        seq![(wire_code(w) * 2 + 1) as u8] + varint_bytes(f as nat)
    }
}

/// Outcome of scanning bytes for one leading field tag.
pub enum TagScan {
    /// The byte `0x00`: the end marker.
    End,
    /// A tag with this field number and wire type, over this many bytes.
    Found(u32, WireType, nat),
    /// The wire-type bits name no known wire type.
    BadWire,
    /// The bytes end before the tag is complete.
    Short,
    /// An extended tag's field number overflows 32 bits.
    TooBig,
}

/// Scans the leading bytes of `s` for one field tag.
pub open spec fn scan_tag(s: Seq<u8>) -> TagScan {
    if s.len() == 0 {
        TagScan::Short
    } else if s[0] == 0 {
        TagScan::End
    } else {
        match wire_type_of((s[0] as nat / 2 % 8) as u8) {
            Option::None => TagScan::BadWire,
            Option::Some(w) => {
                if s[0] as nat % 2 == 0 {
                    TagScan::Found((s[0] as nat / 16) as u32, w, 1)
                } else {
                    match scan32(s.skip(1)) {
                        VarintScan::Found(n) => TagScan::Found(
                            group_value(s.skip(1), n as int) as u32,
                            w,
                            (n + 1) as nat,
                        ),
                        VarintScan::Short => TagScan::Short,
                        VarintScan::TooBig => TagScan::TooBig,
                    }
                }
            },
        }
    }
}

/// Round trip of the tag codec: the encoding of any field number of one or
/// more with any wire type, followed by anything at all, scans back to the
/// same pair; field numbers 1 through 15 take exactly one byte, larger ones
/// at least two.
pub proof fn lemma_tag_roundtrip(f: u32, w: WireType, rest: Seq<u8>)
    requires
        1 <= f,
    ensures
        scan_tag(tag_bytes(f, w) + rest) == TagScan::Found(f, w, tag_bytes(f, w).len() as nat),
        f <= 15 ==> tag_bytes(f, w).len() == 1,
        f > 15 ==> 2 <= tag_bytes(f, w).len() <= 6,
{
    let s = tag_bytes(f, w) + rest;
    let wc = wire_code(w);
    assert(wc <= 4);
    if f <= 15 {
        let b = ((f as nat) * 16 + wc * 2) as u8;
        assert(s[0] == b);
        assert(16 <= (f as nat) * 16 + wc * 2 <= 248) by (nonlinear_arith)
            requires
                1 <= f <= 15 && wc <= 4,
        ;
        assert(b as nat == (f as nat) * 16 + wc * 2);
        assert(b as nat % 2 == 0 && b as nat / 2 % 8 == wc && b as nat / 16 == f as nat)
            by (nonlinear_arith)
            requires
                b as nat == (f as nat) * 16 + wc * 2 && 1 <= f as nat <= 15 && wc <= 4,
        ;
        assert(wire_type_of((s[0] as nat / 2 % 8) as u8) == Some(w));
        assert((s[0] as nat / 16) as u32 == f);
    } else {
        let m = (wc * 2 + 1) as u8;
        assert(s[0] == m);
        assert(m as nat == wc * 2 + 1);
        assert(m as nat % 2 == 1 && m as nat / 2 % 8 == wc) by (nonlinear_arith)
            requires
                m as nat == wc * 2 + 1 && wc <= 4,
        ;
        assert(wire_type_of((s[0] as nat / 2 % 8) as u8) == Some(w));
        let enc = varint_bytes(f as nat);
        assert(s.skip(1) =~= enc + rest);
        lemma_varint32_roundtrip(f, rest);
        assert(scan32(s.skip(1)) == VarintScan::Found(enc.len() as nat));
        assert(group_value(s.skip(1), enc.len() as int) == f as nat);
        assert((group_value(s.skip(1), enc.len() as int)) as u32 == f);
        assert(tag_bytes(f, w).len() == 1 + enc.len());
        if f >= 0x80 {
            lemma_varint_bytes_shape((f as nat) / 0x80);
            assert(enc == seq![(0x80 + (f as nat) % 0x80) as u8] + varint_bytes((f as nat) / 0x80));
            assert(enc.len() >= 2);
        } else {
            assert(enc.len() == 1);
        }
    }
}

/// Distinctness of the end marker: no field tag of a field number of one or
/// more starts with the zero byte, and bytes that start with the zero byte
/// always scan as the end marker, never as a tag of field number zero.
pub proof fn lemma_end_marker_distinct(f: u32, w: WireType, s: Seq<u8>)
    requires
        1 <= f,
        s.len() >= 1,
        s[0] == 0,
    ensures
        tag_bytes(f, w).len() >= 1,
        tag_bytes(f, w)[0] != 0,
        scan_tag(s) == TagScan::End,
{
    let wc = wire_code(w);
    assert(wc <= 4);
    if f <= 15 {
        assert(16 <= (f as nat) * 16 + wc * 2 <= 248) by (nonlinear_arith)
            requires
                1 <= f <= 15 && wc <= 4,
        ;
    }
}

impl FieldTag {
    /// Pairs a field number with a wire type.
    pub fn new(field_number: u32, wire_type: WireType) -> (r: Self)
        ensures
            r == (FieldTag { field_number, wire_type }),
    {
        FieldTag { field_number, wire_type }
    }

    /// Encodes the tag to its compact wire bytes: one byte for field
    /// numbers 1 through 15, a marker byte plus a varint for larger ones,
    /// and nothing for the reserved field number zero.
    pub fn encode_compact(&self) -> (r: Vec<u8>)
        ensures
            r@ == tag_bytes(self.field_number, self.wire_type),
    {
        let mut result: Vec<u8> = Vec::new();
        if self.field_number == 0 {
            return result;
        }
        let code = self.wire_type.code();
        if self.field_number <= MAX_COMPACT_FIELD_NUM {
            let b: u8 = (self.field_number as u8) * 16 + code * 2;
            result.push(b);
            proof {
                assert(result@ =~= tag_bytes(self.field_number, self.wire_type));
            }
        } else {
            result.push(code * 2 + 1);
            crate::varint::push_varint(&mut result, self.field_number as u64);
            proof {
                assert(result@ =~= seq![(wire_code(self.wire_type) * 2 + 1) as u8]
                    + varint_bytes(self.field_number as nat));
            }
        }
        result
    }

    /// Packs the tag into a 32-bit word as `field_number * 8 + wire code`,
    /// wrapping at 32 bits; the word-based form that preceded the compact
    /// byte form.
    pub fn encode(&self) -> (r: u32)
        ensures
            r as nat == ((self.field_number as nat) * 8 + wire_code(self.wire_type)) % 0x100000000,
    {
        let wide: u64 = (self.field_number as u64) * 8 + (self.wire_type.code() as u64);
        (wide % 0x100000000) as u32
    }

    /// Unpacks a 32-bit word into a tag; fails when the low three bits name
    /// no wire type.
    pub fn decode(value: u32) -> (r: Option<Self>)
        ensures
            (match wire_type_of((value % 8) as u8) {
                Option::Some(w) => r == Some(FieldTag { field_number: value / 8, wire_type: w }),
                Option::None => r is None,
            }),
    {
        let wire_type = WireType::from_u8((value % 8) as u8);
        match wire_type {
            Some(w) => Some(FieldTag { field_number: value / 8, wire_type: w }),
            None => None,
        }
    }
}

/// A decoded field tag together with the count of bytes it occupied.
#[derive(Debug, Clone, Copy, PartialEq, Eq, Structural)]
pub struct CompactTagResult {
    pub field_number: u32,
    pub wire_type: WireType,
    pub bytes_read: usize,
}

/// Decodes one field tag from the front of `data`.  The end marker decodes
/// to field number zero over one byte.  Returns nothing when the bytes are
/// empty or truncated, when the wire-type bits are invalid, or when an
/// extended field number overflows 32 bits.
pub fn decode_compact_tag(data: &[u8]) -> (r: Option<CompactTagResult>)
    ensures
        (match scan_tag(data@) {
            TagScan::End => r == Some(
                CompactTagResult { field_number: 0, wire_type: WireType::Varint, bytes_read: 1 },
            ),
            TagScan::Found(f, w, n) => r == Some(
                CompactTagResult { field_number: f, wire_type: w, bytes_read: n as usize },
            ),
            TagScan::BadWire => r is None,
            TagScan::Short => r is None,
            TagScan::TooBig => r is None,
        }),
{
    if data.len() == 0 {
        return None;
    }
    let tag = data[0];
    if tag == END_MARKER {
        return Some(
            CompactTagResult { field_number: 0, wire_type: WireType::Varint, bytes_read: 1 },
        );
    }
    let wire_type_val = (tag / 2) % 8;
    let w = match WireType::from_u8(wire_type_val) {
        Some(w) => w,
        None => {
            return None;
        },
    };
    if tag % 2 == 0 {
        Some(CompactTagResult { field_number: (tag / 16) as u32, wire_type: w, bytes_read: 1 })
    } else {
        match take_varint(data, 1, 5, 0x10) {
            Ok((v, n)) => {
                proof {
                    let s = data@.skip(1);
                    if let VarintScan::Found(g) = scan32(s) {
                        lemma_scan32_value(s, g);
                        vstd::arithmetic::div_mod::lemma_small_mod(
                            group_value(s, g as int),
                            0x10000000000000000,
                        );
                        lemma_scan_found_facts(s, 0, 5, 0x10, g);
                    }
                }
                Some(CompactTagResult { field_number: v as u32, wire_type: w, bytes_read: n + 1 })
            },
            Err(_) => None,
        }
    }
}

} // verus!
