//! Free pages of the first layout form a stack: page 0 stores the head, and
//! each free page stores, at the start of its body, the page below it.
use vstd::prelude::*;
use vstd::bytes::{u64_to_le_bytes, lemma_auto_spec_u64_to_from_le_bytes};
use crate::io::{splice, extract, u64_at, le64, lemma_le_roundtrip, read_u64};
use crate::pager::id::{PageId, opt_page_id_raw, opt_page_id_of_raw, opt_page_id_to_raw};
use crate::pager::error::{PagerError, PagerResult};
use crate::pager::page::page_type::{PageType, page_type_byte};
use crate::pager::traits::{Pager, pager_wf, pages_wf, page_exists, stored_free_head, type_check, write_page_bytes, write_spec, FREE_HEAD_OFFSET};
use crate::pager::versions::v1::page::PAGE_BODY_OFFSET;
use crate::pager::versions::v1::pager::header::{PagerHeader, pager_header_bytes, pager_header_of_bytes, lemma_pager_header_roundtrip};

verus! {

/// Header of a free page: the next free page.
#[derive(Debug, Clone, Copy, PartialEq, Eq, Structural)]
pub struct FreeHeader {
    pub next: Option<PageId>,
}

pub struct Allocator;

/// The next free page recorded in a free page.
pub open spec fn stored_next_free(page: Seq<u8>) -> Option<PageId> {
    opt_page_id_of_raw(u64_at(page, PAGE_BODY_OFFSET as int))
}

/// The pages with `head` recorded as head of the free list.
pub open spec fn with_free_head(pages: Seq<Seq<u8>>, head: Option<PageId>) -> Seq<Seq<u8>> {
    write_page_bytes(pages, PageId(0), FREE_HEAD_OFFSET as int, le64(opt_page_id_raw(head)))
}

/// Result and pages of pushing page `id` on the free list.
pub open spec fn push_spec(pages: Seq<Seq<u8>>, id: PageId) -> (PagerResult<()>, Seq<Seq<u8>>) {
    match type_check(pages, id, PageType::Free) {
        Err(e) => (Err(e), pages),
        Ok(_) => (Ok(()), with_free_head(
            write_page_bytes(pages, id, PAGE_BODY_OFFSET as int, le64(opt_page_id_raw(stored_free_head(pages)))),
            Some(id),
        )),
    }
}

/// Result and pages of freeing page `id`: it becomes a free page and goes on top of the free list.
pub open spec fn free_spec(pages: Seq<Seq<u8>>, id: PageId) -> (PagerResult<()>, Seq<Seq<u8>>) {
    if !page_exists(pages, id) {
        (Err(PagerError::PageNotOpened(id)), pages)
    } else {
        push_spec(write_page_bytes(pages, id, 10, seq![page_type_byte(PageType::Free)]), id)
    }
}

/// Result and pages of taking the page on top of the free list.
pub open spec fn alloc_spec(pages: Seq<Seq<u8>>) -> (PagerResult<Option<PageId>>, Seq<Seq<u8>>) {
    match stored_free_head(pages) {
        None => (Ok(None), pages),
        Some(id) => match type_check(pages, id, PageType::Free) {
            Err(e) => (Err(e), pages),
            Ok(_) => (Ok(Some(id)), with_free_head(pages, stored_next_free(pages[id.0 as int]))),
        },
    }
}

impl FreeHeader {
    /// The header of a free page, once the page is checked to be free.
    pub fn get<P: Pager>(pager: &P, page_id: &PageId) -> (r: PagerResult<Self>)
        requires
            pager_wf(*pager),
        ensures
            r == (match type_check(pager.pages_view(), *page_id, PageType::Free) {
                Err(e) => Err::<FreeHeader, PagerError>(e),
                Ok(_) => Ok(FreeHeader { next: stored_next_free(pager.pages_view()[page_id.0 as int]) }),
            }),
    {
        pager.assert_page_type(page_id, &PageType::Free)?;
        Self::get_unchecked(pager, page_id)
    }

    /// Write the header of a free page, once the page is checked to be free.
    pub fn set<P: Pager>(&self, pager: &mut P, page_id: &PageId) -> (r: PagerResult<()>)
        requires
            pager_wf(*old(pager)),
        ensures
            pager_wf(*final(pager)),
            final(pager).page_size_view() == old(pager).page_size_view(),
            match type_check(old(pager).pages_view(), *page_id, PageType::Free) {
                Err(e) => r == Err::<(), PagerError>(e) && final(pager).pages_view() == old(pager).pages_view(),
                Ok(_) => r is Ok && final(pager).pages_view() == write_page_bytes(old(pager).pages_view(), *page_id,
                    PAGE_BODY_OFFSET as int, le64(opt_page_id_raw(self.next))),
            },
    {
        pager.assert_page_type(page_id, &PageType::Free)?;
        self.set_unchecked(pager, page_id)
    }

    /// The header at the start of the body of a page, whatever the page holds.
    pub fn get_unchecked<P: Pager>(pager: &P, page_id: &PageId) -> (r: PagerResult<Self>)
        requires
            pager_wf(*pager),
        ensures
            r == (if page_exists(pager.pages_view(), *page_id) {
                Ok::<FreeHeader, PagerError>(FreeHeader { next: stored_next_free(pager.pages_view()[page_id.0 as int]) })
            } else {
                Err(PagerError::PageNotOpened(*page_id))
            }),
    {
        let bytes = pager.read_from_page(page_id, PAGE_BODY_OFFSET, 8)?;
        assert(extract(bytes@, 0, 8) =~= extract(pager.pages_view()[page_id.0 as int], PAGE_BODY_OFFSET as int, 8));
        Ok(FreeHeader { next: opt_page_id_from_raw_checked(read_u64(bytes.as_slice(), 0)) })
    }

    /// Write the header at the start of the body of a page, whatever the page holds.
    pub fn set_unchecked<P: Pager>(&self, pager: &mut P, page_id: &PageId) -> (r: PagerResult<()>)
        requires
            pager_wf(*old(pager)),
        ensures
            pager_wf(*final(pager)),
            final(pager).page_size_view() == old(pager).page_size_view(),
            write_spec(old(pager).pages_view(), old(pager).page_size_view(), final(pager).pages_view(), *page_id,
                PAGE_BODY_OFFSET as int, le64(opt_page_id_raw(self.next)), r),
            page_exists(old(pager).pages_view(), *page_id) ==> r is Ok,
    {
        let bytes = u64_to_le_bytes(opt_page_id_to_raw(self.next));
        pager.write_all_to_page(page_id, bytes.as_slice(), PAGE_BODY_OFFSET)
    }
}

fn opt_page_id_from_raw_checked(v: u64) -> (r: Option<PageId>)
    ensures
        r == opt_page_id_of_raw(v),
{
    crate::pager::id::opt_page_id_from_raw(v)
}

impl Allocator {
    /// Take the page on top of the free list, if there is one.
    pub fn allocate<P: Pager>(pager: &mut P) -> (r: PagerResult<Option<PageId>>)
        requires
            pager_wf(*old(pager)),
        ensures
            pager_wf(*final(pager)),
            final(pager).page_size_view() == old(pager).page_size_view(),
            (r, final(pager).pages_view()) == alloc_spec(old(pager).pages_view()),
    {
        Self::pop(pager)
    }

    /// Mark the page free and put it on top of the free list.
    pub fn free<P: Pager>(pager: &mut P, page_id: &PageId) -> (r: PagerResult<()>)
        requires
            pager_wf(*old(pager)),
        ensures
            pager_wf(*final(pager)),
            final(pager).page_size_view() == old(pager).page_size_view(),
            (r, final(pager).pages_view()) == free_spec(old(pager).pages_view(), *page_id),
    {
        pager.change_page_type(page_id, PageType::Free)?;
        let ghost mid = pager.pages_view();
        proof {
            assert(mid[page_id.0 as int][10] == page_type_byte(PageType::Free));
        }
        Self::push(pager, page_id)
    }

    /// Pop a free page, and opens it.
    fn pop<P: Pager>(pager: &mut P) -> (r: PagerResult<Option<PageId>>)
        requires
            pager_wf(*old(pager)),
        ensures
            pager_wf(*final(pager)),
            final(pager).page_size_view() == old(pager).page_size_view(),
            (r, final(pager).pages_view()) == alloc_spec(old(pager).pages_view()),
    {
        match Self::get_free_head(pager)? {
            Some(page_id) => {
                pager.open_page(&page_id)?;
                let next = FreeHeader::get(pager, &page_id)?.next;
                Self::set_free_head(pager, next)?;
                Ok(Some(page_id))
            },
            None => Ok(None),
        }
    }

    fn push<P: Pager>(pager: &mut P, page_id: &PageId) -> (r: PagerResult<()>)
        requires
            pager_wf(*old(pager)),
        ensures
            pager_wf(*final(pager)),
            final(pager).page_size_view() == old(pager).page_size_view(),
            (r, final(pager).pages_view()) == push_spec(old(pager).pages_view(), *page_id),
    {
        let head = Self::get_free_head(pager)?;
        let ghost before = pager.pages_view();
        FreeHeader { next: head }.set(pager, page_id)?;
        assert(type_check(before, *page_id, PageType::Free) is Ok);
        let ghost mid = pager.pages_view();
        assert(mid == write_page_bytes(before, *page_id, PAGE_BODY_OFFSET as int, le64(opt_page_id_raw(stored_free_head(before)))));
        Self::set_free_head(pager, Some(*page_id))
    }

    /// Head of the free list, as recorded in the pager header.
    fn get_free_head<P: Pager>(pager: &P) -> (r: PagerResult<Option<PageId>>)
        requires
            pager_wf(*pager),
        ensures
            r == Ok::<Option<PageId>, PagerError>(stored_free_head(pager.pages_view())),
    {
        Ok(PagerHeader::get(pager)?.free_head)
    }

    /// Record `free_head` as head of the free list in the pager header.
    fn set_free_head<P: Pager>(pager: &mut P, free_head: Option<PageId>) -> (r: PagerResult<()>)
        requires
            pager_wf(*old(pager)),
        ensures
            pager_wf(*final(pager)),
            final(pager).page_size_view() == old(pager).page_size_view(),
            r == Ok::<(), PagerError>(()),
            final(pager).pages_view() == with_free_head(old(pager).pages_view(), free_head),
    {
        let mut header = PagerHeader::get(pager)?;
        header.free_head = free_head;
        let r = header.set(pager);
        proof {
            let p = old(pager).pages_view()[0];
            lemma_auto_spec_u64_to_from_le_bytes();
            lemma_le_roundtrip();
            assert(le64(u64_at(p, 0)) == extract(p, 0, 8));
            assert(le64(u64_at(p, 8)) == extract(p, 8, 8));
            assert(le64(u64_at(p, 16)) == extract(p, 16, 8));
            assert(pager.pages_view() =~= with_free_head(old(pager).pages_view(), free_head)) by {
                assert(pager.pages_view()[0] =~= with_free_head(old(pager).pages_view(), free_head)[0]);
            }
        }
        r
    }
}

/// Taking a page from the free list right after freeing it gives that page
/// back and restores the head of the free list, page 0 included byte for byte.
pub proof fn lemma_alloc_after_free(pages: Seq<Seq<u8>>, page_size: nat, id: PageId)
    requires
        pages_wf(pages, page_size),
        page_exists(pages, id),
        id.0 != 0,
    ensures
        free_spec(pages, id).0 is Ok,
        alloc_spec(free_spec(pages, id).1).0 == Ok::<Option<PageId>, PagerError>(Some(id)),
        stored_free_head(alloc_spec(free_spec(pages, id).1).1) == stored_free_head(pages),
        alloc_spec(free_spec(pages, id).1).1[0] == pages[0],
        forall|k: int| 0 <= k < pages.len() && k != id.0 ==> #[trigger] alloc_spec(free_spec(pages, id).1).1[k] == pages[k],
{
    lemma_le_roundtrip();
    lemma_auto_spec_u64_to_from_le_bytes();
    let p0 = pages[0];
    let pages1 = free_spec(pages, id).1;
    let pages2 = alloc_spec(pages1).1;
    let t = write_page_bytes(pages, id, 10, seq![page_type_byte(PageType::Free)]);
    assert(t[id.0 as int][10] == page_type_byte(PageType::Free));
    let head = stored_free_head(pages);
    let w = write_page_bytes(t, id, PAGE_BODY_OFFSET as int, le64(opt_page_id_raw(head)));
    assert(pages1 == with_free_head(w, Some(id)));
    assert(extract(pages1[0], FREE_HEAD_OFFSET as int, 8) =~= le64(id.0));
    assert(stored_free_head(pages1) == Some(id));
    assert(pages1[id.0 as int] == w[id.0 as int]);
    assert(extract(pages1[id.0 as int], PAGE_BODY_OFFSET as int, 8) =~= le64(opt_page_id_raw(head)));
    assert(opt_page_id_raw(head) == u64_at(p0, FREE_HEAD_OFFSET as int));
    assert(pages2[0] =~= p0) by {
        assert(le64(u64_at(p0, FREE_HEAD_OFFSET as int)) == extract(p0, FREE_HEAD_OFFSET as int, 8));
    }
    assert(extract(pages2[0], FREE_HEAD_OFFSET as int, 8) =~= extract(p0, FREE_HEAD_OFFSET as int, 8));
}

} // verus!
