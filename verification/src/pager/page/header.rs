//! Header of a page that also records where its body starts. It is 88 bytes
//! long; its fields take the first 23: identifier (8 bytes), nonce (2), body
//! offset (4), page type (1) and parent identifier (8).
use vstd::prelude::*;
use crate::io::{splice, extract, u64_at, u32_at, u16_at, le64, le32, le16, lemma_le_roundtrip, read_u64, read_u32, read_u16, push_u64, push_u32, push_u16, read_bytes, write_bytes, zeros};
use crate::pager::id::{PageId, opt_page_id_raw, opt_page_id_of_raw, opt_page_id_storable, opt_page_id_to_raw, opt_page_id_from_raw, lemma_opt_page_id_roundtrip};
use crate::pager::page::nonce::PageNonce;
use crate::pager::page::offset::PageOffset;
use crate::pager::page::page_type::{PageType, page_type_byte, page_type_of_byte, lemma_page_type_roundtrip};

verus! {

/// Header of a page, 88 bytes long.
#[derive(Debug, Clone, Copy, PartialEq, Eq, Structural)]
pub struct PageHeader {
    /// Number of the page.
    pub id: PageId,
    /// Nonce, in case of conflicted pages.
    pub nonce: PageNonce,
    /// Pointer to the body base of the page
    pub body_ptr: PageOffset,
    /// Type of page
    pub page_type: PageType,
    /// Parent page
    pub parent_id: Option<PageId>,
}

pub open spec fn stored_page_header_bytes(h: PageHeader) -> Seq<u8> {
    le64(h.id.0) + le16(h.nonce.0) + le32(h.body_ptr.0) + seq![page_type_byte(h.page_type)]
        + le64(opt_page_id_raw(h.parent_id))
}

pub open spec fn stored_page_header_of_bytes(s: Seq<u8>) -> PageHeader {
    PageHeader {
        id: PageId(u64_at(s, 0)),
        nonce: PageNonce(u16_at(s, 8)),
        body_ptr: PageOffset(u32_at(s, 10)),
        page_type: page_type_of_byte(s[14]),
        parent_id: opt_page_id_of_raw(u64_at(s, 15)),
    }
}

/// A stored header reads back as itself, unless its parent is `Some(PageId(0))`.
pub proof fn lemma_stored_page_header_roundtrip(h: PageHeader)
    requires
        opt_page_id_storable(h.parent_id),
    ensures
        stored_page_header_bytes(h).len() == 23,
        stored_page_header_of_bytes(stored_page_header_bytes(h)) == h,
{
    lemma_le_roundtrip();
    let s = stored_page_header_bytes(h);
    assert(extract(s, 0, 8) =~= le64(h.id.0));
    assert(extract(s, 8, 2) =~= le16(h.nonce.0));
    assert(extract(s, 10, 4) =~= le32(h.body_ptr.0));
    assert(extract(s, 15, 8) =~= le64(opt_page_id_raw(h.parent_id)));
    lemma_page_type_roundtrip(h.page_type);
}

impl PageHeader {
    /// Size of the page header, in bytes: 88. The five fields are written on
    /// its first 23 bytes (8 + 2 + 4 + 1 + 8); the rest of it is reserved, and
    /// the body of a new page starts after it.
    pub fn size_of() -> (r: u64)
        ensures
            r == 88,
            forall|h: PageHeader| #[trigger] stored_page_header_bytes(h).len() <= r,
    {
        proof { lemma_le_roundtrip(); }
        88
    }

    /// Header of a page just made: no type, no parent, the body right after
    /// the header, and a random nonce.
    pub fn new(page_id: PageId) -> (r: Self)
        ensures
            r.id == page_id,
            r.page_type == PageType::Unitialised,
            r.body_ptr.0 == 88,
            r.parent_id == None::<PageId>,
    {
        PageHeader {
            id: page_id,
            nonce: PageNonce::new(),
            page_type: PageType::Unitialised,
            body_ptr: PageOffset(Self::size_of() as u32),
            parent_id: None,
        }
    }

    pub fn to_bytes(&self) -> (out: Vec<u8>)
        ensures
            out@ == stored_page_header_bytes(*self),
    {
        let mut out: Vec<u8> = Vec::new();
        push_u64(&mut out, self.id.0);
        push_u16(&mut out, self.nonce.0);
        push_u32(&mut out, self.body_ptr.0);
        out.push(self.page_type.to_byte());
        push_u64(&mut out, opt_page_id_to_raw(self.parent_id));
        assert(out@ =~= stored_page_header_bytes(*self));
        out
    }

    pub fn from_bytes(bytes: &[u8]) -> (r: Self)
        requires
            bytes@.len() >= 23,
        ensures
            r == stored_page_header_of_bytes(bytes@),
    {
        PageHeader {
            id: PageId(read_u64(bytes, 0)),
            nonce: PageNonce(read_u16(bytes, 8)),
            body_ptr: PageOffset(read_u32(bytes, 10)),
            page_type: PageType::from_byte(bytes[14]),
            parent_id: opt_page_id_from_raw(read_u64(bytes, 15)),
        }
    }
}

} // verus!
