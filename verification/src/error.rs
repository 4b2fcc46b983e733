//! Error type shared by every encoding and decoding operation.

use vstd::prelude::*;

verus! {

/// Failure of an encode or decode operation.
///
/// Buffer conditions carry the number of bytes the operation needed and the
/// number that were actually available.
#[derive(Debug)]
pub enum Error {
    /// Encoding needed more room than the output could offer.
    BufferOverflow { needed: usize, available: usize },
    /// Decoding needed more bytes than the input held.
    BufferUnderflow { needed: usize, available: usize },
    /// A LEB128 sequence exceeded the byte-count or bit-width limit of the
    /// target integer size.
    VarintOverflow,
    /// A tag's wire-type bits named no known wire type; carries the raw tag
    /// byte.
    InvalidWireType(u8),
    /// A polymorphic payload referenced a type id absent from the registry.
    UnknownTypeId(u32),
    /// A polymorphic encode referenced a name absent from the registry.
    TypeNotRegistered(String),
    /// A byte span declared as text was not valid UTF-8.
    InvalidUtf8,
    /// A framed stream ended in the middle of a length prefix or payload.
    UnexpectedEof,
    /// A framed message declared a length above the configured maximum.
    MessageTooLarge { size: usize, max: usize },
    /// A caller-supplied failure message.
    Custom(String),
}

impl Error {
    /// Builds the buffer-overflow condition.
    pub fn buffer_overflow(needed: usize, available: usize) -> (r: Self)
        ensures
            r == (Error::BufferOverflow { needed, available }),
    {
        Error::BufferOverflow { needed, available }
    }

    /// Builds the buffer-underflow condition.
    pub fn buffer_underflow(needed: usize, available: usize) -> (r: Self)
        ensures
            r == (Error::BufferUnderflow { needed, available }),
    {
        Error::BufferUnderflow { needed, available }
    }

    /// Wraps a caller-supplied message.
    pub fn custom(msg: String) -> (r: Self)
        ensures
            (r matches Error::Custom(m) && m@ == msg@),
    {
        Error::Custom(msg)
    }
}

} // verus!
