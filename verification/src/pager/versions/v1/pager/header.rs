//! Header of the pager, stored at the start of page 0: version, page size,
//! number of pages and head of the free list, eight bytes each.
use vstd::prelude::*;
use crate::io::{extract, u64_at, le64, lemma_le_roundtrip, read_u64, push_u64};
use crate::pager::id::{PageId, opt_page_id_raw, opt_page_id_of_raw, opt_page_id_storable, opt_page_id_to_raw, opt_page_id_from_raw};
use crate::pager::page::size::PageSize;
use crate::pager::error::{PagerError, PagerResult};
use crate::pager::traits::{Pager, pager_wf, pages_wf, write_spec};

verus! {

pub const PAGER_HEADER_SIZE: u64 = 32;

/// Index of the page holding the pager header.
pub const PAGER_PAGE_INDEX: u64 = 0;

#[derive(Debug, Clone, Copy, PartialEq, Eq, Structural)]
pub struct PagerHeader {
    /// Should alway be first
    pub version: u64,
    /// Size of a page
    pub page_size: u64,
    /// Number of pages
    pub page_count: u64,
    /// Pointer to the first free page that can be retrieved.
    pub free_head: Option<PageId>,
}

pub open spec fn pager_header_bytes(h: PagerHeader) -> Seq<u8> {
    le64(h.version) + le64(h.page_size) + le64(h.page_count) + le64(opt_page_id_raw(h.free_head))
}

pub open spec fn pager_header_of_bytes(s: Seq<u8>) -> PagerHeader {
    PagerHeader {
        version: u64_at(s, 0),
        page_size: u64_at(s, 8),
        page_count: u64_at(s, 16),
        free_head: opt_page_id_of_raw(u64_at(s, 24)),
    }
}

/// A stored pager header reads back as itself, unless its free head is `Some(PageId(0))`.
pub proof fn lemma_pager_header_roundtrip(h: PagerHeader)
    requires
        opt_page_id_storable(h.free_head),
    ensures
        pager_header_bytes(h).len() == PAGER_HEADER_SIZE,
        pager_header_of_bytes(pager_header_bytes(h)) == h,
{
    lemma_le_roundtrip();
    let s = pager_header_bytes(h);
    assert(extract(s, 0, 8) =~= le64(h.version));
    assert(extract(s, 8, 8) =~= le64(h.page_size));
    assert(extract(s, 16, 8) =~= le64(h.page_count));
    assert(extract(s, 24, 8) =~= le64(opt_page_id_raw(h.free_head)));
}

impl PagerHeader {
    /// Header of a pager that holds only its own page.
    pub fn new(page_size: PageSize) -> (r: Self)
        ensures
            r == (PagerHeader { version: 1, page_size: page_size.0, page_count: 1, free_head: None }),
    {
        PagerHeader { version: 1, page_size: page_size.0, page_count: 1, free_head: None }
    }

    pub fn size_of() -> (r: u64)
        ensures
            r == PAGER_HEADER_SIZE,
    {
        4 * 8
    }

    pub fn to_bytes(&self) -> (out: Vec<u8>)
        ensures
            out@ == pager_header_bytes(*self),
    {
        let mut out: Vec<u8> = Vec::new();
        push_u64(&mut out, self.version);
        push_u64(&mut out, self.page_size);
        push_u64(&mut out, self.page_count);
        push_u64(&mut out, opt_page_id_to_raw(self.free_head));
        out
    }

    pub fn from_bytes(bytes: &[u8]) -> (r: Self)
        requires
            bytes@.len() >= PAGER_HEADER_SIZE,
        ensures
            r == pager_header_of_bytes(bytes@),
    {
        PagerHeader {
            version: read_u64(bytes, 0),
            page_size: read_u64(bytes, 8),
            page_count: read_u64(bytes, 16),
            free_head: opt_page_id_from_raw(read_u64(bytes, 24)),
        }
    }

    /// Store the header at the start of page 0.
    pub fn set<P: Pager>(&self, pager: &mut P) -> (r: PagerResult<()>)
        requires
            pager_wf(*old(pager)),
        ensures
            pager_wf(*final(pager)),
            final(pager).page_size_view() == old(pager).page_size_view(),
            r is Ok,
            write_spec(old(pager).pages_view(), old(pager).page_size_view(), final(pager).pages_view(), PageId(PAGER_PAGE_INDEX), 0, pager_header_bytes(*self), r),
    {
        let bytes = self.to_bytes();
        proof { lemma_pager_header_roundtrip_len(*self); }
        pager.write_all_to_page(&PageId(PAGER_PAGE_INDEX), bytes.as_slice(), 0)
    }

    /// The header stored at the start of page 0.
    pub fn get<P: Pager>(pager: &P) -> (r: PagerResult<Self>)
        requires
            pager_wf(*pager),
        ensures
            r == Ok::<PagerHeader, PagerError>(pager_header_of_bytes(pager.pages_view()[0])),
    {
        let bytes = pager.read_from_page(&PageId(PAGER_PAGE_INDEX), 0, PAGER_HEADER_SIZE as usize)?;
        proof {
            let page = pager.pages_view()[0];
            assert(extract(bytes@, 0, 8) =~= extract(page, 0, 8));
            assert(extract(bytes@, 8, 8) =~= extract(page, 8, 8));
            assert(extract(bytes@, 16, 8) =~= extract(page, 16, 8));
            assert(extract(bytes@, 24, 8) =~= extract(page, 24, 8));
        }
        Ok(Self::from_bytes(bytes.as_slice()))
    }
}

proof fn lemma_pager_header_roundtrip_len(h: PagerHeader)
    ensures
        pager_header_bytes(h).len() == PAGER_HEADER_SIZE,
{
    lemma_le_roundtrip();
}

} // verus!
