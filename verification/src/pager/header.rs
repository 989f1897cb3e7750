//! Header of a pager kept in a stream: version, page size, page count, where
//! the pages start, and the head of the free list.
use vstd::prelude::*;
use crate::io::{extract, u64_at, u32_at, le64, le32, lemma_le_roundtrip, read_u64, read_u32, push_u64, push_u32};
use crate::pager::id::{PageId, opt_page_id_raw, opt_page_id_of_raw, opt_page_id_storable, opt_page_id_to_raw, opt_page_id_from_raw};
use crate::pager::page::size::PageSize;
use crate::pager::page::offset::PageOffset;

verus! {

/// Version of the pager layout.
#[derive(Debug, Clone, Copy, PartialEq, Eq, Structural)]
pub struct PagerVersion(pub u64);

impl PagerVersion {
    /// Number of bytes a version occupies.
    pub fn size_of() -> (r: usize)
        ensures
            r == 8,
    {
        8
    }
}

/// Number of pages of a pager.
#[derive(Debug, Clone, Copy, PartialEq, Eq, Structural)]
pub struct PageCount(pub u64);

impl PageCount {
    /// Count `rhs` more pages.
    pub fn add_assign(&mut self, rhs: u64)
        requires
            old(self).0 + rhs <= u64::MAX,
        ensures
            final(self).0 == old(self).0 + rhs,
    {
        self.0 = self.0 + rhs;
    }

    /// The identifier of the page numbered by this count.
    pub fn to_page_id(self) -> (r: PageId)
        ensures
            r.0 == self.0,
    {
        PageId::new(self.0)
    }
}

#[derive(Debug, Clone, Copy, PartialEq, Eq, Structural)]
pub struct PagerHeader {
    pub version: PagerVersion,
    /// Size of a page
    pub page_size: PageSize,
    /// Number of pages
    pub page_count: PageCount,
    /// Offset to pages
    pub page_ptr: PageOffset,
    /// Pointer to the first free page that can be retrieved.
    pub free_head: Option<PageId>,
}

impl PagerHeader {
    /// The header of a new pager: version 1, one page, pages right after the
    /// header, no free page.
    pub fn new(page_size: PageSize) -> (r: Self)
        ensures
            r == (PagerHeader {
                version: PagerVersion(1),
                page_size,
                page_count: PageCount(1),
                page_ptr: PageOffset(32),
                free_head: None,
            }),
    {
        PagerHeader {
            version: PagerVersion(1),
            page_size,
            page_count: PageCount(1),
            page_ptr: PageOffset(Self::size_of() as u32),
            free_head: None,
        }
    }

    /// Size the header is counted for: four 8-byte fields.
    pub fn size_of() -> (r: u64)
        ensures
            r == 32,
    {
        4 * 8
    }
}

/// The bytes a header is written as: its fields in order, eight bytes each
/// but for the offset to the pages, on four.
pub open spec fn stream_pager_header_bytes(h: PagerHeader) -> Seq<u8> {
    le64(h.version.0) + le64(h.page_size.0) + le64(h.page_count.0) + le32(h.page_ptr.0) + le64(opt_page_id_raw(h.free_head))
}

/// The header that bytes read back as.
pub open spec fn stream_pager_header_of_bytes(s: Seq<u8>) -> PagerHeader {
    PagerHeader {
        version: PagerVersion(u64_at(s, 0)),
        page_size: PageSize(u64_at(s, 8)),
        page_count: PageCount(u64_at(s, 16)),
        page_ptr: PageOffset(u32_at(s, 24)),
        free_head: opt_page_id_of_raw(u64_at(s, 28)),
    }
}

/// A written header reads back as itself, unless its free head is `Some(PageId(0))`.
pub proof fn lemma_stream_pager_header_roundtrip(h: PagerHeader)
    requires
        opt_page_id_storable(h.free_head),
    ensures
        stream_pager_header_bytes(h).len() == 36,
        stream_pager_header_of_bytes(stream_pager_header_bytes(h)) == h,
{
    lemma_le_roundtrip();
    let s = stream_pager_header_bytes(h);
    assert(extract(s, 0, 8) =~= le64(h.version.0));
    assert(extract(s, 8, 8) =~= le64(h.page_size.0));
    assert(extract(s, 16, 8) =~= le64(h.page_count.0));
    assert(extract(s, 24, 4) =~= le32(h.page_ptr.0));
    assert(extract(s, 28, 8) =~= le64(opt_page_id_raw(h.free_head)));
}

impl PagerHeader {
    /// The bytes of the header.
    pub fn to_bytes(&self) -> (out: Vec<u8>)
        ensures
            out@ == stream_pager_header_bytes(*self),
    {
        let mut out: Vec<u8> = Vec::new();
        push_u64(&mut out, self.version.0);
        push_u64(&mut out, self.page_size.0);
        push_u64(&mut out, self.page_count.0);
        push_u32(&mut out, self.page_ptr.0);
        push_u64(&mut out, opt_page_id_to_raw(self.free_head));
        out
    }

    /// The header stored in the first 36 bytes of `bytes`.
    pub fn from_bytes(bytes: &[u8]) -> (r: Self)
        requires
            bytes@.len() >= 36,
        ensures
            r == stream_pager_header_of_bytes(bytes@),
    {
        PagerHeader {
            version: PagerVersion(read_u64(bytes, 0)),
            page_size: PageSize(read_u64(bytes, 8)),
            page_count: PageCount(read_u64(bytes, 16)),
            page_ptr: PageOffset(read_u32(bytes, 24)),
            free_head: opt_page_id_from_raw(read_u64(bytes, 28)),
        }
    }
}

} // verus!
