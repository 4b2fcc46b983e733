//! Length-delimited message framing over in-memory byte buffers.
//!
//! A framed stream is `[varint length][length bytes of payload]`, repeated,
//! with no outer envelope.  The writer accumulates framed messages in a
//! byte buffer for the caller to send; the reader walks a received byte
//! buffer and hands out one payload at a time, guarding each declared
//! length against a configurable maximum before touching the payload.

use vstd::prelude::*;

use crate::error::Error;
use crate::varint::{group_value, push_varint, scan_frame, take_varint, varint_bytes, VarintScan};

verus! {

/// Largest message a stream reader accepts by default: 64 MiB, a guard
/// against corrupt or hostile length fields.
pub const DEFAULT_MAX_MESSAGE_SIZE: usize = 64 * 1024 * 1024;

/// StreamWriter frames messages into a growable byte buffer.
///
/// Its view is the framed bytes accumulated so far.
pub struct StreamWriter {
    buffer: Vec<u8>,
}

impl View for StreamWriter {
    type V = Seq<u8>;

    closed spec fn view(&self) -> Seq<u8> {
        self.buffer@
    }
}

impl StreamWriter {
    /// Creates a stream writer with an empty buffer.
    pub fn new() -> (r: Self)
        ensures
            r@ == Seq::<u8>::empty(),
    {
        StreamWriter { buffer: Vec::new() }
    }

    /// Appends one varint to the buffer.
    fn write_varint(&mut self, value: u64) -> (r: Result<(), Error>)
        ensures
            r is Ok,
            final(self)@ == old(self)@ + varint_bytes(value as nat),
    {
        push_varint(&mut self.buffer, value);
        Ok(())
    }

    /// Appends one framed message: the payload's byte length as a varint,
    /// then the payload itself.
    pub fn write_message(&mut self, data: &[u8]) -> (r: Result<(), Error>)
        ensures
            r is Ok,
            final(self)@ == old(self)@ + varint_bytes(data@.len()) + data@,
    {
        let framed = self.write_varint(data.len() as u64);
        self.buffer.extend_from_slice(data);
        framed
    }

    /// Makes buffered bytes final; the in-memory buffer holds nothing
    /// back, so there is nothing to do.
    pub fn flush(&mut self) -> (r: Result<(), Error>)
        ensures
            r is Ok,
            final(self)@ == old(self)@,
    {
        Ok(())
    }

    /// The framed bytes accumulated so far, borrowed.
    pub fn get_ref(&self) -> (r: &Vec<u8>)
        ensures
            r@ == self@,
    {
        &self.buffer
    }

    /// The buffer itself, borrowed mutably.
    pub fn get_mut(&mut self) -> (r: &mut Vec<u8>)
        ensures
            (*r)@ == old(self)@,
            final(self)@ == (*final(r))@,
    {
        &mut self.buffer
    }

    /// Consumes the writer and hands over the framed bytes.
    pub fn into_inner(self) -> (r: Result<Vec<u8>, Error>)
        ensures
            (r matches Ok(v) && v@ == self@),
    {
        Ok(self.buffer)
    }
}

/// StreamReader walks framed messages in a received byte buffer.
pub struct StreamReader {
    data: Vec<u8>,
    pos: usize,
    max_message_size: usize,
}

impl StreamReader {
    /// The whole received buffer.
    pub closed spec fn bytes(&self) -> Seq<u8> {
        self.data@
    }

    /// How many bytes have been consumed.
    pub closed spec fn cursor(&self) -> int {
        self.pos as int
    }

    /// The configured maximum message size.
    pub closed spec fn max_size(&self) -> int {
        self.max_message_size as int
    }

    /// The cursor never passes the end of the buffer.
    pub open spec fn wf(&self) -> bool {
        0 <= self.cursor() <= self.bytes().len()
    }

    /// The bytes not yet consumed.
    pub open spec fn rest(&self) -> Seq<u8> {
        self.bytes().skip(self.cursor())
    }

    /// Creates a reader over a received buffer, with the default maximum
    /// message size.
    pub fn new(data: Vec<u8>) -> (r: Self)
        ensures
            r.bytes() == data@,
            r.cursor() == 0,
            r.max_size() == DEFAULT_MAX_MESSAGE_SIZE,
            r.wf(),
    {
        StreamReader { data, pos: 0, max_message_size: DEFAULT_MAX_MESSAGE_SIZE }
    }

    /// Sets the maximum message size the reader accepts.
    pub fn set_max_message_size(&mut self, size: usize)
        ensures
            final(self).bytes() == old(self).bytes(),
            final(self).cursor() == old(self).cursor(),
            final(self).max_size() == size,
    {
        self.max_message_size = size;
    }

    /// The received buffer, borrowed.
    pub fn get_ref(&self) -> (r: &Vec<u8>)
        ensures
            r@ == self.bytes(),
    {
        &self.data
    }

    /// The received buffer, borrowed mutably.
    pub fn get_mut(&mut self) -> (r: &mut Vec<u8>)
        ensures
            (*r)@ == old(self).bytes(),
            final(self).bytes() == (*final(r))@,
            final(self).cursor() == old(self).cursor(),
            final(self).max_size() == old(self).max_size(),
    {
        &mut self.data
    }

    /// Reads one length varint; a stream that ends mid-varint fails with
    /// an unexpected-end condition.
    fn read_varint(&mut self) -> (r: Result<u64, Error>)
        requires
            old(self).wf(),
        ensures
            final(self).wf(),
            final(self).bytes() == old(self).bytes(),
            final(self).max_size() == old(self).max_size(),
            (match scan_frame(old(self).rest()) {
                VarintScan::Found(n) => (r matches Ok(v) && v as nat == group_value(
                    old(self).rest(),
                    n as int,
                ) % 0x10000000000000000 && final(self).cursor() == old(self).cursor() + n),
                VarintScan::Short => r == Err::<u64, Error>(Error::UnexpectedEof) && final(self).cursor() == old(self).cursor(),
                VarintScan::TooBig => r == Err::<u64, Error>(Error::VarintOverflow) && final(self).cursor() == old(self).cursor(),
            }),
    {
        let buf_len = self.data.len();
        match take_varint(self.data.as_slice(), self.pos, 10, 0x80) {
            Ok((v, n)) => {
                self.pos = self.pos + n;
                Ok(v)
            },
            Err(e) => match e {
                Error::BufferUnderflow { needed, available } => Err(Error::UnexpectedEof),
                other => Err(other),
            },
        }
    }

    /// Reads one length varint, or reports a clean end of stream when no
    /// byte of it has been read.
    fn try_read_varint(&mut self) -> (r: Result<Option<u64>, Error>)
        requires
            old(self).wf(),
        ensures
            final(self).wf(),
            final(self).bytes() == old(self).bytes(),
            final(self).max_size() == old(self).max_size(),
            old(self).rest().len() == 0 ==> r == Ok::<Option<u64>, Error>(None) && final(self).cursor() == old(self).cursor(),
            old(self).rest().len() > 0 ==> (match scan_frame(old(self).rest()) {
                VarintScan::Found(n) => (r matches Ok(o) && o matches Some(v) && v as nat
                    == group_value(old(self).rest(), n as int) % 0x10000000000000000 && final(self).cursor() == old(self).cursor() + n),
                VarintScan::Short => r == Err::<Option<u64>, Error>(Error::UnexpectedEof) && final(self).cursor() == old(self).cursor(),
                VarintScan::TooBig => r == Err::<Option<u64>, Error>(Error::VarintOverflow)
                    && final(self).cursor() == old(self).cursor(),
            }),
    {
        if self.pos >= self.data.len() {
            return Ok(None);
        }
        match self.read_varint() {
            Ok(v) => Ok(Some(v)),
            Err(e) => Err(e),
        }
    }

    /// Reads one framed message and hands its payload over.  A declared
    /// length above the maximum fails before any of the payload is read;
    /// a stream that ends mid-varint or mid-payload fails with an
    /// unexpected-end condition.
    pub fn read_message(&mut self) -> (r: Result<Vec<u8>, Error>)
        requires
            old(self).wf(),
        ensures
            final(self).wf(),
            final(self).bytes() == old(self).bytes(),
            final(self).max_size() == old(self).max_size(),
            (match scan_frame(old(self).rest()) {
                VarintScan::Found(n) => ({
                    let len = (group_value(old(self).rest(), n as int)
                        % 0x10000000000000000) as u64;
                    &&& len > old(self).max_size() ==> (r matches Err(e) && e matches
                        Error::MessageTooLarge { size, max } && size == len as usize && max == old(self).max_size() && final(self).cursor() == old(self).cursor() + n)
                    &&& len <= old(self).max_size() ==> {
                        &&& old(self).rest().len() - n >= len ==> (r matches Ok(v) && v@ == old(self).rest().skip(n as int).take(len as int) && final(self).cursor() == old(self).cursor() + n + len)
                        &&& old(self).rest().len() - n < len ==> r == Err::<Vec<u8>, Error>(
                            Error::UnexpectedEof,
                        ) && final(self).cursor() == old(self).cursor() + n
                    }
                }),
                VarintScan::Short => r == Err::<Vec<u8>, Error>(Error::UnexpectedEof) && final(self).cursor() == old(self).cursor(),
                VarintScan::TooBig => r == Err::<Vec<u8>, Error>(Error::VarintOverflow) && final(self).cursor() == old(self).cursor(),
            }),
    {
        let length = self.read_varint()?;
        if length > self.max_message_size as u64 {
            return Err(
                Error::MessageTooLarge { size: length as usize, max: self.max_message_size },
            );
        }
        self.take_payload(length as usize)
    }

    /// Reads one framed message, or reports a clean end of stream when the
    /// buffer is exhausted before any length byte.
    pub fn try_read_message(&mut self) -> (r: Result<Option<Vec<u8>>, Error>)
        requires
            old(self).wf(),
        ensures
            final(self).wf(),
            final(self).bytes() == old(self).bytes(),
            final(self).max_size() == old(self).max_size(),
            old(self).rest().len() == 0 ==> r == Ok::<Option<Vec<u8>>, Error>(None) && final(self).cursor() == old(self).cursor(),
            old(self).rest().len() > 0 ==> (match scan_frame(old(self).rest()) {
                VarintScan::Found(n) => ({
                    let len = (group_value(old(self).rest(), n as int)
                        % 0x10000000000000000) as u64;
                    &&& len > old(self).max_size() ==> (r matches Err(e) && e matches
                        Error::MessageTooLarge { size, max } && size == len as usize && max == old(self).max_size() && final(self).cursor() == old(self).cursor() + n)
                    &&& len <= old(self).max_size() ==> {
                        &&& old(self).rest().len() - n >= len ==> (r matches Ok(o) && o matches
                            Some(v) && v@ == old(self).rest().skip(n as int).take(len as int)
                            && final(self).cursor() == old(self).cursor() + n + len)
                        &&& old(self).rest().len() - n < len ==> r == Err::<
                            Option<Vec<u8>>,
                            Error,
                        >(Error::UnexpectedEof) && final(self).cursor() == old(self).cursor() + n
                    }
                }),
                VarintScan::Short => r == Err::<Option<Vec<u8>>, Error>(Error::UnexpectedEof)
                    && final(self).cursor() == old(self).cursor(),
                VarintScan::TooBig => r == Err::<Option<Vec<u8>>, Error>(Error::VarintOverflow)
                    && final(self).cursor() == old(self).cursor(),
            }),
    {
        let length = match self.try_read_varint()? {
            Some(length) => length,
            None => {
                return Ok(None);
            },
        };
        if length > self.max_message_size as u64 {
            return Err(
                Error::MessageTooLarge { size: length as usize, max: self.max_message_size },
            );
        }
        match self.take_payload(length as usize) {
            Ok(v) => Ok(Some(v)),
            Err(e) => Err(e),
        }
    }

    /// Copies the next `length` payload bytes out of the buffer, failing
    /// with an unexpected-end condition when fewer are left.
    fn take_payload(&mut self, length: usize) -> (r: Result<Vec<u8>, Error>)
        requires
            old(self).wf(),
        ensures
            final(self).wf(),
            final(self).bytes() == old(self).bytes(),
            final(self).max_size() == old(self).max_size(),
            old(self).rest().len() >= length ==> (r matches Ok(v) && v@ == old(self).rest().take(
                length as int,
            ) && final(self).cursor() == old(self).cursor() + length),
            old(self).rest().len() < length ==> r == Err::<Vec<u8>, Error>(Error::UnexpectedEof)
                && final(self).cursor() == old(self).cursor(),
    {
        let buf_len = self.data.len();
        if buf_len - self.pos < length {
            return Err(Error::UnexpectedEof);
        }
        let slice = vstd::slice::slice_subrange(self.data.as_slice(), self.pos, self.pos + length);
        let payload = vstd::slice::slice_to_vec(slice);
        self.pos = self.pos + length;
        proof {
            assert(payload@ =~= old(self).rest().take(length as int));
        }
        Ok(payload)
    }

    /// Consumes the reader into a lazy sequence of its messages.
    pub fn messages(self) -> (r: MessageIter)
        ensures
            r.remaining() == self.rest(),
            r.max_size() == self.max_size(),
            self.wf() ==> r.wf(),
    {
        MessageIter { reader: self }
    }
}

/// A lazy sequence of the framed messages left in a stream: each `next`
/// hands out one payload, ends cleanly at a clean end of stream, and
/// surfaces a read failure as its final item.
pub struct MessageIter {
    reader: StreamReader,
}

impl MessageIter {
    /// The bytes the sequence has not yet walked.
    pub closed spec fn remaining(&self) -> Seq<u8> {
        self.reader.rest()
    }

    /// The maximum message size the underlying reader accepts.
    pub closed spec fn max_size(&self) -> int {
        self.reader.max_size()
    }

    /// The underlying reader's cursor never passes its end.
    pub closed spec fn wf(&self) -> bool {
        self.reader.wf()
    }

    /// Produces the next message: a payload, nothing at a clean end of
    /// stream, or the failure that ended the sequence.
    pub fn next(&mut self) -> (r: Option<Result<Vec<u8>, Error>>)
        requires
            old(self).wf(),
        ensures
            final(self).wf(),
            final(self).max_size() == old(self).max_size(),
            old(self).remaining().len() == 0 ==> r is None && final(self).remaining() == old(self).remaining(),
            old(self).remaining().len() > 0 ==> (match scan_frame(old(self).remaining()) {
                VarintScan::Found(n) => ({
                    let len = (group_value(old(self).remaining(), n as int)
                        % 0x10000000000000000) as u64;
                    &&& len > old(self).max_size() ==> (r matches Some(item) && item matches
                        Err(e) && e matches Error::MessageTooLarge { size, max } && size == len as usize
                        && max == old(self).max_size())
                    &&& len <= old(self).max_size() ==> {
                        &&& old(self).remaining().len() - n >= len ==> (r matches Some(item)
                            && item matches Ok(v) && v@ == old(self).remaining().skip(
                            n as int,
                        ).take(len as int) && final(self).remaining() == old(self).remaining().skip(
                            n + len as int,
                        ))
                        &&& old(self).remaining().len() - n < len ==> (r matches Some(item)
                            && item == Err::<Vec<u8>, Error>(Error::UnexpectedEof))
                    }
                }),
                VarintScan::Short => (r matches Some(item) && item == Err::<Vec<u8>, Error>(
                    Error::UnexpectedEof,
                )),
                VarintScan::TooBig => (r matches Some(item) && item == Err::<Vec<u8>, Error>(
                    Error::VarintOverflow,
                )),
            }),
    {
        let ghost s0 = self.reader.rest();
        match self.reader.try_read_message() {
            Ok(Some(data)) => {
                proof {
                    if let VarintScan::Found(n) = scan_frame(s0) {
                        assert(self.reader.rest() =~= s0.skip(
                            n + (group_value(s0, n as int) % 0x10000000000000000) as int,
                        ));
                    }
                }
                Some(Ok(data))
            },
            Ok(None) => None,
            Err(e) => Some(Err(e)),
        }
    }
}

/// Round trip of the stream framing: a framed message, followed by
/// anything at all, scans back as one complete length varint carrying the
/// payload's length, and the payload lies exactly after it.
pub proof fn lemma_frame_roundtrip(data: Seq<u8>, rest: Seq<u8>)
    requires
        data.len() <= u64::MAX,
    ensures
        ({
            let framed = varint_bytes(data.len()) + data + rest;
            let n = varint_bytes(data.len()).len() as int;
            &&& scan_frame(framed) == VarintScan::Found(n as nat)
            &&& group_value(framed, n) % 0x10000000000000000 == data.len()
            &&& framed.skip(n).take(data.len() as int) =~= data
        }),
{
    let len64 = data.len() as u64;
    crate::varint::lemma_varint_frame_roundtrip(len64, data + rest);
    let framed = varint_bytes(data.len()) + data + rest;
    let n = varint_bytes(data.len()).len() as int;
    assert(framed =~= varint_bytes(len64 as nat) + (data + rest));
    vstd::arithmetic::div_mod::lemma_small_mod(data.len(), 0x10000000000000000);
    assert(framed.skip(n).take(data.len() as int) =~= data);
}

} // verus!
