//! Page headers of the stream layout: identifier, nonce and type, 11 bytes.
use vstd::prelude::*;
use crate::io::{extract, u64_at, u16_at, le64, le16, lemma_le_roundtrip, ReadError};
use crate::pager::page_id::PageId;
use crate::pager::page_nonce::PageNonce;
use crate::pager::page_type::{PageType, stream_type_byte, stream_type_of_byte, lemma_stream_type_roundtrip};

verus! {

/// Header of a page in a stream.
#[derive(Debug, Clone, Copy, PartialEq, Eq, Structural)]
pub struct PageHeader {
    /// Number of the page.
    pub id: PageId,
    /// Nonce, in case of conflicted pages.
    pub nonce: PageNonce,
    /// Type of page.
    pub page_type: PageType,
}

/// The bytes a header is stored as.
pub open spec fn stream_header_bytes(h: PageHeader) -> Seq<u8> {
    le64(h.id.0) + le16(h.nonce.0) + seq![stream_type_byte(h.page_type)]
}

impl PageHeader {
    /// Size of the page header.
    pub fn raw_size_of() -> (r: u64)
        ensures
            r == 11,
    {
        PageId::raw_size_of() + PageNonce::raw_size_of() + PageType::raw_size_of()
    }

    /// Move the stream position `*pos` to the end of the header, and return it.
    pub fn seek_end(pos: &mut u64) -> (r: u64)
        ensures
            r == 11,
            *final(pos) == r,
    {
        let p = Self::raw_size_of();
        *pos = p;
        p
    }

    /// The type of the page whose header starts `b`: read after its identifier and nonce.
    pub fn seek_page_type(b: &[u8]) -> (r: Result<PageType, ReadError>)
        requires
            b@.len() > 10 ==> b@[10] <= 2,
        ensures
            b@.len() > 10 ==> r == Ok::<PageType, ReadError>(stream_type_of_byte(b@[10])),
            b@.len() <= 10 ==> r == Err::<PageType, ReadError>(ReadError::UnexpectedEof),
    {
        let mut pos: usize = (PageId::raw_size_of() + PageNonce::raw_size_of()) as usize;
        PageType::read_from_buffer(b, &mut pos)
    }

    /// Append the header to `b`, and return how many bytes were written.
    pub fn write_to_buffer(&self, b: &mut Vec<u8>) -> (r: usize)
        ensures
            final(b)@ == old(b)@ + stream_header_bytes(*self),
            r == 11,
    {
        let n = self.id.write_to_buffer(b);
        let m = self.nonce.write_to_buffer(b);
        let k = self.page_type.write_to_buffer(b);
        assert(b@ =~= old(b)@ + stream_header_bytes(*self));
        n + m + k
    }

    /// Read a header at `*pos` and move past it.
    pub fn read_from_buffer(b: &[u8], pos: &mut usize) -> (r: Result<Self, ReadError>)
        requires
            *old(pos) + 10 < b@.len() ==> b@[*old(pos) + 10] <= 2,
        ensures
            *old(pos) + 11 <= b@.len() ==> r == Ok::<Self, ReadError>(PageHeader {
                id: PageId(u64_at(b@, *old(pos) as int)),
                nonce: PageNonce(u16_at(b@, *old(pos) + 8)),
                page_type: stream_type_of_byte(b@[*old(pos) + 10]),
            }),
            *old(pos) + 11 > b@.len() ==> r == Err::<Self, ReadError>(ReadError::UnexpectedEof),
            r is Ok ==> *final(pos) == *old(pos) + 11,
    {
        let id = PageId::read_from_buffer(b, pos)?;
        let nonce = PageNonce::read_from_buffer(b, pos)?;
        let page_type = PageType::read_from_buffer(b, pos)?;
        Ok(PageHeader { id, nonce, page_type })
    }
}

/// A header written then read back at the same place is the same header.
pub proof fn lemma_stream_header_roundtrip(h: PageHeader, before: Seq<u8>)
    ensures
        ({
            let s = before + stream_header_bytes(h);
            let p = before.len() as int;
            &&& s.len() == p + 11
            &&& PageId(u64_at(s, p)) == h.id
            &&& PageNonce(u16_at(s, p + 8)) == h.nonce
            &&& s[p + 10] <= 2
            &&& stream_type_of_byte(s[p + 10]) == h.page_type
        }),
{
    lemma_le_roundtrip();
    lemma_stream_type_roundtrip(h.page_type);
    let s = before + stream_header_bytes(h);
    let p = before.len() as int;
    assert(extract(s, p, 8) =~= le64(h.id.0));
    assert(extract(s, p + 8, 2) =~= le16(h.nonce.0));
}

} // verus!
