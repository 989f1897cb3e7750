//! Page nonces of the stream layout: two bytes each.
use vstd::prelude::*;
use crate::io::{u16_at, le16, read_u16, push_u16, ReadError};

verus! {

/// Nonce of a page, to tell conflicting pages apart.
#[derive(Debug, Clone, Copy, PartialEq, Eq, Structural)]
pub struct PageNonce(pub u16);

impl PageNonce {
    /// Number of bytes a nonce occupies.
    pub fn raw_size_of() -> (r: u64)
        ensures
            r == 2,
    {
        2
    }

    /// Append the nonce to `b`, and return how many bytes were written.
    pub fn write_to_buffer(&self, b: &mut Vec<u8>) -> (r: usize)
        ensures
            final(b)@ == old(b)@ + le16(self.0),
            r == 2,
    {
        push_u16(b, self.0);
        2
    }

    /// Read a nonce at `*pos` and move past it.
    pub fn read_from_buffer(buffer: &[u8], pos: &mut usize) -> (r: Result<Self, ReadError>)
        ensures
            *old(pos) + 2 <= buffer@.len() ==> r == Ok::<Self, ReadError>(PageNonce(u16_at(buffer@, *old(pos) as int)))
                && *final(pos) == *old(pos) + 2,
            *old(pos) + 2 > buffer@.len() ==> r == Err::<Self, ReadError>(ReadError::UnexpectedEof)
                && *final(pos) == *old(pos),
    {
        if buffer.len() < 2 || *pos > buffer.len() - 2 {
            return Err(ReadError::UnexpectedEof);
        }
        let v = read_u16(buffer, *pos);
        *pos = *pos + 2;
        Ok(PageNonce(v))
    }
}

} // verus!
