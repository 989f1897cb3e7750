//! Header at the start of every page, first layout: identifier (8 bytes),
//! nonce (2), page type (1) and parent identifier (8).
use vstd::prelude::*;
use crate::io::{splice, extract, u64_at, u32_at, u16_at, le64, le32, le16, lemma_le_roundtrip, read_u64, read_u32, read_u16, push_u64, push_u32, push_u16, read_bytes, write_bytes, zeros};
use crate::pager::id::{PageId, opt_page_id_raw, opt_page_id_of_raw, opt_page_id_storable, opt_page_id_to_raw, opt_page_id_from_raw, lemma_opt_page_id_roundtrip};
use crate::pager::page::nonce::PageNonce;
use crate::pager::page::page_type::{PageType, page_type_byte, page_type_of_byte, lemma_page_type_roundtrip};
use crate::pager::error::{PagerError, PagerResult};
use crate::pager::traits::{Pager, pager_wf, pages_wf, page_exists, stored_type, stored_free_head, access_check, write_page_bytes, write_spec, read_spec, fresh_page, page_appended, MIN_PAGER_PAGE_SIZE, MAX_PAGE_COUNT, PAGE_COUNT_OFFSET, FREE_HEAD_OFFSET};

verus! {

pub const PAGE_HEADER_OFFSET: u64 = 0;

pub const PAGE_HEADER_SIZE: u64 = 19;

#[derive(Debug, Clone, Copy, PartialEq, Eq, Structural)]
pub struct PageHeader {
    /// Number of the page.
    pub id: PageId,
    /// Nonce, in case of conflicted pages.
    pub nonce: PageNonce,
    /// Type of page.
    pub page_type: PageType,
    /// Parent page.
    pub parent_id: Option<PageId>,
}

/// The 19 bytes a page header is stored as.
pub open spec fn page_header_bytes(h: PageHeader) -> Seq<u8> {
    le64(h.id.0) + le16(h.nonce.0) + seq![page_type_byte(h.page_type)] + le64(opt_page_id_raw(h.parent_id))
}

/// The page header stored at the start of `s`.
pub open spec fn page_header_of_bytes(s: Seq<u8>) -> PageHeader {
    PageHeader {
        id: PageId(u64_at(s, 0)),
        nonce: PageNonce(u16_at(s, 8)),
        page_type: page_type_of_byte(s[10]),
        parent_id: opt_page_id_of_raw(u64_at(s, 11)),
    }
}

/// A stored header reads back as itself, unless its parent is `Some(PageId(0))`.
pub proof fn lemma_page_header_roundtrip(h: PageHeader)
    requires
        opt_page_id_storable(h.parent_id),
    ensures
        page_header_bytes(h).len() == PAGE_HEADER_SIZE,
        page_header_of_bytes(page_header_bytes(h)) == h,
{
    lemma_le_roundtrip();
    let s = page_header_bytes(h);
    assert(extract(s, 0, 8) =~= le64(h.id.0));
    assert(extract(s, 8, 2) =~= le16(h.nonce.0));
    assert(extract(s, 11, 8) =~= le64(opt_page_id_raw(h.parent_id)));
    lemma_page_type_roundtrip(h.page_type);
}

impl PageHeader {
    /// Size of the page header.
    pub fn size_of() -> (r: u64)
        ensures
            r == PAGE_HEADER_SIZE,
    {
        PAGE_HEADER_SIZE
    }

    /// Header of a page that has just been made: no type, no parent, a random nonce.
    pub fn new(page_id: PageId) -> (r: Self)
        ensures
            r.id == page_id,
            r.page_type == PageType::Unitialised,
            r.parent_id == None::<PageId>,
    {
        PageHeader { id: page_id, nonce: PageNonce::new(), page_type: PageType::Unitialised, parent_id: None }
    }

    pub fn to_bytes(&self) -> (out: Vec<u8>)
        ensures
            out@ == page_header_bytes(*self),
    {
        let mut out: Vec<u8> = Vec::new();
        push_u64(&mut out, self.id.0);
        push_u16(&mut out, self.nonce.0);
        out.push(self.page_type.to_byte());
        push_u64(&mut out, opt_page_id_to_raw(self.parent_id));
        assert(out@ =~= page_header_bytes(*self));
        out
    }

    pub fn from_bytes(bytes: &[u8]) -> (r: Self)
        requires
            bytes@.len() >= PAGE_HEADER_SIZE,
        ensures
            r == page_header_of_bytes(bytes@),
    {
        PageHeader {
            id: PageId(read_u64(bytes, 0)),
            nonce: PageNonce(read_u16(bytes, 8)),
            page_type: PageType::from_byte(bytes[10]),
            parent_id: opt_page_id_from_raw(read_u64(bytes, 11)),
        }
    }

    /// Write the header at the start of its own page.
    pub fn set<P: Pager>(&self, pager: &mut P) -> (r: PagerResult<()>)
        requires
            pager_wf(*old(pager)),
        ensures
            pager_wf(*final(pager)),
            final(pager).page_size_view() == old(pager).page_size_view(),
            write_spec(old(pager).pages_view(), old(pager).page_size_view(), final(pager).pages_view(), self.id, PAGE_HEADER_OFFSET as int, page_header_bytes(*self), r),
    {
        let bytes = self.to_bytes();
        pager.write_all_to_page(&self.id, bytes.as_slice(), PAGE_HEADER_OFFSET)
    }

    /// Read the header at the start of a page.
    pub fn get<P: Pager>(page_id: &PageId, pager: &P) -> (r: PagerResult<Self>)
        requires
            pager_wf(*pager),
        ensures
            r == (if page_exists(pager.pages_view(), *page_id) {
                Ok::<PageHeader, PagerError>(page_header_of_bytes(pager.pages_view()[page_id.0 as int]))
            } else {
                Err(PagerError::PageNotOpened(*page_id))
            }),
    {
        let bytes = pager.read_from_page(page_id, PAGE_HEADER_OFFSET, PAGE_HEADER_SIZE as usize)?;
        proof {
            assert forall|i: int| 0 <= i < 19 implies bytes@[i] == pager.pages_view()[page_id.0 as int][i] by {}
            assert(extract(bytes@, 0, 8) =~= extract(pager.pages_view()[page_id.0 as int], 0, 8));
            assert(extract(bytes@, 8, 2) =~= extract(pager.pages_view()[page_id.0 as int], 8, 2));
            assert(extract(bytes@, 11, 8) =~= extract(pager.pages_view()[page_id.0 as int], 11, 8));
        }
        Ok(Self::from_bytes(bytes.as_slice()))
    }
}

} // verus!
