//! Page identifiers of the stream layout: eight bytes each.
use vstd::prelude::*;
use crate::io::{extract, u64_at, le64, read_u64, push_u64, ReadError};

verus! {

/// Number of a page in a stream.
#[derive(Debug, Clone, Copy, PartialEq, Eq, Structural)]
pub struct PageId(pub u64);

impl PageId {
    /// Number of bytes an identifier occupies.
    pub fn raw_size_of() -> (r: u64)
        ensures
            r == 8,
    {
        8
    }

    /// Append the identifier to `b`, and return how many bytes were written.
    pub fn write_to_buffer(&self, b: &mut Vec<u8>) -> (r: usize)
        ensures
            final(b)@ == old(b)@ + le64(self.0),
            r == 8,
    {
        push_u64(b, self.0);
        8
    }

    /// Read an identifier at `*pos` and move past it.
    pub fn read_from_buffer(buffer: &[u8], pos: &mut usize) -> (r: Result<Self, ReadError>)
        ensures
            *old(pos) + 8 <= buffer@.len() ==> r == Ok::<Self, ReadError>(PageId(u64_at(buffer@, *old(pos) as int)))
                && *final(pos) == *old(pos) + 8,
            *old(pos) + 8 > buffer@.len() ==> r == Err::<Self, ReadError>(ReadError::UnexpectedEof)
                && *final(pos) == *old(pos),
    {
        if buffer.len() < 8 || *pos > buffer.len() - 8 {
            return Err(ReadError::UnexpectedEof);
        }
        let v = read_u64(buffer, *pos);
        *pos = *pos + 8;
        Ok(PageId(v))
    }

    /// The identifier `rhs` pages further.
    pub fn add(self, rhs: u64) -> (r: Self)
        requires
            self.0 + rhs <= u64::MAX,
        ensures
            r.0 == self.0 + rhs,
    {
        PageId(self.0 + rhs)
    }
}

} // verus!
