//! What the header of a page tells, without its layout.
use vstd::prelude::*;
use crate::pager::id::PageId;
use crate::pager::page::nonce::PageNonce;
use crate::pager::page::page_type::PageType;
use crate::pager::page::header::PageHeader as StoredPageHeader;
use crate::pager::versions::v1::page::header::{PageHeader, page_header_bytes, page_header_of_bytes, lemma_page_header_roundtrip, PAGE_HEADER_SIZE};
use crate::pager::id::opt_page_id_storable;
use crate::io::extract;

verus! {

#[derive(Debug, Clone, Copy, PartialEq, Eq, Structural)]
pub struct PageMetadata {
    /// Number of the page.
    pub id: PageId,
    /// Nonce, in case of conflicted pages.
    pub nonce: PageNonce,
    /// Type of page.
    pub page_type: PageType,
    /// Parent page.
    pub parent_id: Option<PageId>,
}

impl PageMetadata {
    pub open spec fn of_header(h: PageHeader) -> PageMetadata {
        PageMetadata { id: h.id, nonce: h.nonce, page_type: h.page_type, parent_id: h.parent_id }
    }

    /// Metadata of a first-layout page header.
    pub fn from_header(h: PageHeader) -> (r: PageMetadata)
        ensures
            r == Self::of_header(h),
    {
        PageMetadata { id: h.id, nonce: h.nonce, page_type: h.page_type, parent_id: h.parent_id }
    }

    /// Metadata of a page header that also records where the body starts.
    pub fn from_stored_header(h: StoredPageHeader) -> (r: PageMetadata)
        ensures
            r == (PageMetadata { id: h.id, nonce: h.nonce, page_type: h.page_type, parent_id: h.parent_id }),
    {
        PageMetadata { id: h.id, nonce: h.nonce, page_type: h.page_type, parent_id: h.parent_id }
    }
}

/// The metadata of a page tells every field of the header stored at its start:
/// a page whose first bytes hold the header `h` has the identifier, nonce,
/// type and parent of `h` as its metadata, so the metadata read after a header
/// is set gives back the parent that was set.
pub proof fn lemma_metadata_reads_header(h: PageHeader, page: Seq<u8>)
    requires
        opt_page_id_storable(h.parent_id),
        page.len() >= PAGE_HEADER_SIZE,
        extract(page, 0, PAGE_HEADER_SIZE as int) == page_header_bytes(h),
    ensures
        PageMetadata::of_header(page_header_of_bytes(page)).id == h.id,
        PageMetadata::of_header(page_header_of_bytes(page)).nonce == h.nonce,
        PageMetadata::of_header(page_header_of_bytes(page)).page_type == h.page_type,
        PageMetadata::of_header(page_header_of_bytes(page)).parent_id == h.parent_id,
{
    lemma_page_header_roundtrip(h);
    let b = page_header_bytes(h);
    assert(extract(page, 0, 8) =~= extract(b, 0, 8));
    assert(extract(page, 8, 2) =~= extract(b, 8, 2));
    assert(page[10] == b[10]);
    assert(extract(page, 11, 8) =~= extract(b, 11, 8));
}

} // verus!

