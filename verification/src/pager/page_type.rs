//! Page types of the stream layout: one byte each.
use vstd::prelude::*;
use crate::io::ReadError;

verus! {

/// Type of a page in a stream.
#[derive(Debug, Clone, Copy, PartialEq, Eq, Structural)]
pub enum PageType {
    Collection,
    BTree,
    Overflow,
}

/// The byte a page type is stored as.
pub open spec fn stream_type_byte(t: PageType) -> u8 {
    match t {
        PageType::Collection => 0,
        PageType::BTree => 1,
        PageType::Overflow => 2,
    }
}

/// The page type a byte designates, for the bytes 0, 1 and 2.
pub open spec fn stream_type_of_byte(b: u8) -> PageType
    recommends
        b <= 2,
{
    if b == 0 {
        PageType::Collection
    } else if b == 1 {
        PageType::BTree
    } else {
        PageType::Overflow
    }
}

pub proof fn lemma_stream_type_roundtrip(t: PageType)
    ensures
        stream_type_byte(t) <= 2,
        stream_type_of_byte(stream_type_byte(t)) == t,
{
}

impl PageType {
    /// Number of bytes a page type occupies.
    pub fn raw_size_of() -> (r: u64)
        ensures
            r == 1,
    {
        1
    }

    pub fn to_byte(&self) -> (r: u8)
        ensures
            r == stream_type_byte(*self),
    {
        match self {
            PageType::Collection => 0,
            PageType::BTree => 1,
            PageType::Overflow => 2,
        }
    }

    /// The page type stored as `value`, which must be one of 0, 1 and 2.
    pub fn from_byte(value: u8) -> (r: Self)
        requires
            value <= 2,
        ensures
            r == stream_type_of_byte(value),
    {
        if value == 0 {
            PageType::Collection
        } else if value == 1 {
            PageType::BTree
        } else {
            PageType::Overflow
        }
    }

    /// Append the page type to `b`, and return how many bytes were written.
    pub fn write_to_buffer(&self, b: &mut Vec<u8>) -> (r: usize)
        ensures
            final(b)@ == old(b)@.push(stream_type_byte(*self)),
            r == 1,
    {
        b.push(self.to_byte());
        1
    }

    /// Read a page type at `*pos` and move past it.
    pub fn read_from_buffer(buffer: &[u8], pos: &mut usize) -> (r: Result<Self, ReadError>)
        requires
            *old(pos) < buffer@.len() ==> buffer@[*old(pos) as int] <= 2,
        ensures
            *old(pos) < buffer@.len() ==> r == Ok::<Self, ReadError>(stream_type_of_byte(buffer@[*old(pos) as int]))
                && *final(pos) == *old(pos) + 1,
            *old(pos) >= buffer@.len() ==> r == Err::<Self, ReadError>(ReadError::UnexpectedEof)
                && *final(pos) == *old(pos),
    {
        if *pos >= buffer.len() {
            return Err(ReadError::UnexpectedEof);
        }
        let v = buffer[*pos];
        *pos = *pos + 1;
        Ok(Self::from_byte(v))
    }
}

} // verus!
