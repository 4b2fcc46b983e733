//! A compact binary serialization format and its encode/decode engine.
//!
//! The format encodes a message as a sequence of tagged fields.  A field tag
//! packs a field number and a wire type into one byte for field numbers 1
//! through 15 and into a marker byte plus a varint for larger numbers; the
//! single byte `0x00` is the end marker.  Integers travel as LEB128 varints,
//! signed integers through the ZigZag mapping, fixed-width values as raw
//! little-endian bytes, and strings and byte spans with a varint length
//! prefix.  A registry maps type names and numeric type ids to polymorphic
//! payloads, and a framing layer delimits whole messages on a byte stream.

pub mod error;
pub mod reader;
pub mod registry;
pub mod stream;
pub mod types;
pub mod varint;
pub mod writer;

pub use error::Error;
pub use types::{CompactTagResult, FieldTag, TypeId, WireType};
pub use reader::Reader;
pub use registry::Registry;
pub use stream::{MessageIter, StreamReader, StreamWriter};
pub use writer::Writer;
pub use types::{decode_compact_tag, zigzag_decode_32, zigzag_decode_64, zigzag_encode_32, zigzag_encode_64};

use vstd::prelude::*;

use reader::Reader as ByteReader;
use writer::Writer as ByteWriter;

verus! {

/// Encodes a value through a caller-supplied encoder driven over a fresh
/// writer, handing back the bytes the encoder produced.
pub fn marshal<T, F: FnOnce(&mut ByteWriter, &T) -> Result<(), Error>>(value: &T, encoder: F) -> (r:
    Result<Vec<u8>, Error>)
    requires
        forall|w: &mut ByteWriter| w@ == Seq::<u8>::empty() ==> call_requires(encoder, (w, value)),
    ensures
        (r matches Ok(b) ==> exists|w: &mut ByteWriter| w@ == Seq::<u8>::empty() && call_ensures(
            encoder,
            (w, value),
            Ok::<(), Error>(()),
        ) && b@ == final(w)@),
        (r matches Err(e) ==> exists|w: &mut ByteWriter| w@ == Seq::<u8>::empty() && call_ensures(
            encoder,
            (w, value),
            Err::<(), Error>(e),
        )),
{
    let mut writer = ByteWriter::new();
    let res = encoder(&mut writer, value);
    match res {
        Ok(u) => {
            proof {
                assert(res == Ok::<(), Error>(u));
                assert(res == Ok::<(), Error>(()));
            }
            Ok(writer.into_bytes())
        },
        Err(e) => Err(e),
    }
}

/// Decodes a value through a caller-supplied decoder driven over a reader
/// positioned at the start of the bytes.
pub fn unmarshal<'a, T, F: FnOnce(&mut ByteReader<'a>) -> Result<T, Error>>(
    data: &'a [u8],
    decoder: F,
) -> (r: Result<T, Error>)
    requires
        forall|rd: &mut ByteReader<'a>| rd.bytes() == data@ && rd.cursor() == 0 ==> call_requires(
            decoder,
            (rd,),
        ),
    ensures
        exists|rd: &mut ByteReader<'a>| rd.bytes() == data@ && rd.cursor() == 0 && call_ensures(
            decoder,
            (rd,),
            r,
        ),
{
    let mut reader = ByteReader::new(data);
    decoder(&mut reader)
}

} // verus!
