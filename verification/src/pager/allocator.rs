//! Reuse of freed pages through a list of free pages whose head the pager
//! records. A free page records the next page of the list in the first eight
//! bytes of its body.
use vstd::prelude::*;
use vstd::bytes::{u64_to_le_bytes, lemma_auto_spec_u64_to_from_le_bytes};
use crate::io::{extract, u64_at, le64, lemma_le_roundtrip, read_u64};
use crate::pager::id::{PageId, opt_page_id_raw, opt_page_id_of_raw, opt_page_id_to_raw, opt_page_id_from_raw};
use crate::pager::error::{PagerError, PagerResult};
use crate::pager::page::page_type::{PageType, page_type_byte};
use crate::pager::traits::{Pager, pager_wf, pages_wf, page_exists, stored_free_head, type_check, write_page_bytes, write_spec};
use crate::pager::versions::v1::allocator::with_free_head;
use crate::pager::versions::v1::page::PAGE_BODY_OFFSET;

verus! {

/// What a free page records: the page that follows it in the list.
#[derive(Debug, Clone, Copy, PartialEq, Eq, Structural)]
pub struct FreeHeader {
    pub next: Option<PageId>,
}

impl FreeHeader {
    pub fn new() -> (r: Self)
        ensures
            r.next is None,
    {
        FreeHeader { next: None }
    }
}

/// A free page, with the place of its header in the page.
pub struct FreePage {
    page_id: PageId,
    base: u64,
    header: FreeHeader,
}

/// The next page recorded in the header of a free page, at the start of its body.
pub open spec fn recorded_next(page: Seq<u8>) -> Option<PageId> {
    opt_page_id_of_raw(u64_at(page, PAGE_BODY_OFFSET as int))
}

/// The pages once page `id` is typed free.
pub open spec fn freed_page(pages: Seq<Seq<u8>>, id: PageId) -> Seq<Seq<u8>> {
    write_page_bytes(pages, id, 10, seq![page_type_byte(PageType::Free)])
}

/// The pages once the free page `id` records `next` as its next page and
/// becomes the head of the list.
pub open spec fn stack_push_spec(pages: Seq<Seq<u8>>, id: PageId, next: Option<PageId>) -> Seq<Seq<u8>> {
    with_free_head(write_page_bytes(pages, id, PAGE_BODY_OFFSET as int, le64(opt_page_id_raw(next))), Some(id))
}

/// Result and pages of freeing page `id`: it is typed free, records the
/// former head as its next page, and becomes the head of the list.
pub open spec fn stack_free_spec(pages: Seq<Seq<u8>>, id: PageId) -> (PagerResult<()>, Seq<Seq<u8>>) {
    if !page_exists(pages, id) {
        (Err(PagerError::PageNotOpened(id)), pages)
    } else {
        let typed = freed_page(pages, id);
        (Ok(()), stack_push_spec(typed, id, stored_free_head(typed)))
    }
}

/// Result and pages of taking the page at the head of the list: its next
/// page becomes the head.
pub open spec fn stack_alloc_spec(pages: Seq<Seq<u8>>) -> (PagerResult<Option<PageId>>, Seq<Seq<u8>>) {
    match stored_free_head(pages) {
        None => (Ok(None), pages),
        Some(id) => match type_check(pages, id, PageType::Free) {
            Err(e) => (Err(e), pages),
            Ok(_) => (Ok(Some(id)), with_free_head(pages, recorded_next(pages[id.0 as int]))),
        },
    }
}

impl FreePage {
    pub closed spec fn page_id_view(&self) -> PageId {
        self.page_id
    }

    pub closed spec fn base_view(&self) -> u64 {
        self.base
    }

    pub closed spec fn next_view(&self) -> Option<PageId> {
        self.header.next
    }

    /// Turn the page into a free page with no next page; its header sits at the start of the body.
    pub fn new<P: Pager>(pager: &mut P, page_id: PageId) -> (r: PagerResult<Self>)
        requires
            pager_wf(*old(pager)),
        ensures
            pager_wf(*final(pager)),
            final(pager).page_size_view() == old(pager).page_size_view(),
            !page_exists(old(pager).pages_view(), page_id) ==> r == Err::<Self, PagerError>(PagerError::PageNotOpened(page_id))
                && final(pager).pages_view() == old(pager).pages_view(),
            page_exists(old(pager).pages_view(), page_id) ==> r is Ok
                && final(pager).pages_view() == write_page_bytes(old(pager).pages_view(), page_id, 10, seq![page_type_byte(PageType::Free)]),
            r matches Ok(pg) ==> pg.page_id_view() == page_id && pg.base_view() == PAGE_BODY_OFFSET && pg.next_view() is None,
    {
        pager.change_page_type(&page_id, PageType::Free)?;
        let base = pager.get_body_ptr(&page_id)?;
        Ok(FreePage { page_id, base, header: FreeHeader::new() })
    }

    /// Open a free page and read its header, at the start of its body.
    pub fn get<P: Pager>(page_id: &PageId, pager: &mut P) -> (r: PagerResult<Self>)
        requires
            pager_wf(*old(pager)),
        ensures
            final(pager).pages_view() == old(pager).pages_view(),
            final(pager).page_size_view() == old(pager).page_size_view(),
            match type_check(old(pager).pages_view(), *page_id, PageType::Free) {
                Err(e) => r == Err::<Self, PagerError>(e),
                Ok(_) => r matches Ok(pg) && pg.page_id_view() == *page_id && pg.base_view() == PAGE_BODY_OFFSET
                    && pg.next_view() == recorded_next(old(pager).pages_view()[page_id.0 as int]),
            },
    {
        pager.open_page(page_id)?;
        pager.assert_page_type(page_id, &PageType::Free)?;
        let base = pager.get_body_ptr(page_id)?;
        let bytes = pager.read_from_page(page_id, base, 8)?;
        assert(extract(bytes@, 0, 8) =~= extract(pager.pages_view()[page_id.0 as int], PAGE_BODY_OFFSET as int, 8));
        let next = opt_page_id_from_raw(read_u64(bytes.as_slice(), 0));
        Ok(FreePage { page_id: *page_id, base, header: FreeHeader { next } })
    }

    /// Write the header back where it was read.
    pub fn flush<P: Pager>(&mut self, pager: &mut P) -> (r: PagerResult<()>)
        requires
            pager_wf(*old(pager)),
        ensures
            *final(self) == *old(self),
            pager_wf(*final(pager)),
            final(pager).page_size_view() == old(pager).page_size_view(),
            write_spec(old(pager).pages_view(), old(pager).page_size_view(), final(pager).pages_view(),
                old(self).page_id_view(), old(self).base_view() as int, le64(opt_page_id_raw(old(self).next_view())), r),
    {
        let bytes = u64_to_le_bytes(opt_page_id_to_raw(self.header.next));
        pager.write_all_to_page(&self.page_id, bytes.as_slice(), self.base)
    }

    pub fn set_next(&mut self, next: Option<PageId>)
        ensures
            final(self).next_view() == next,
            final(self).page_id_view() == old(self).page_id_view(),
            final(self).base_view() == old(self).base_view(),
    {
        self.header.next = next;
    }

    pub fn get_next(&self) -> (r: Option<PageId>)
        ensures
            r == self.next_view(),
    {
        self.header.next
    }
}

pub struct Allocator;

impl Allocator {
    /// Take the page at the head of the list of free pages, if there is one;
    /// the page is opened.
    pub fn allocate<P: Pager>(pager: &mut P) -> (r: PagerResult<Option<PageId>>)
        requires
            pager_wf(*old(pager)),
        ensures
            pager_wf(*final(pager)),
            final(pager).page_size_view() == old(pager).page_size_view(),
            (r, final(pager).pages_view()) == stack_alloc_spec(old(pager).pages_view()),
    {
        Self::pop(pager)
    }

    /// Free the page and put it at the head of the list of free pages.
    pub fn free<P: Pager>(pager: &mut P, page_id: &PageId) -> (r: PagerResult<()>)
        requires
            pager_wf(*old(pager)),
        ensures
            pager_wf(*final(pager)),
            final(pager).page_size_view() == old(pager).page_size_view(),
            (r, final(pager).pages_view()) == stack_free_spec(old(pager).pages_view(), *page_id),
    {
        let mut pg = FreePage::new(pager, *page_id)?;
        Self::push(pager, &mut pg)?;
        Ok(())
    }

    fn pop<P: Pager>(pager: &mut P) -> (r: PagerResult<Option<PageId>>)
        requires
            pager_wf(*old(pager)),
        ensures
            pager_wf(*final(pager)),
            final(pager).page_size_view() == old(pager).page_size_view(),
            (r, final(pager).pages_view()) == stack_alloc_spec(old(pager).pages_view()),
    {
        match Self::get_free_head(pager)? {
            Some(head) => {
                pager.set_freelist_head(head.get_next());
                Ok(Some(head.page_id))
            },
            None => Ok(None),
        }
    }

    /// Put the free page `pg` at the head of the list: it records the former head as its next page.
    fn push<P: Pager>(pager: &mut P, pg: &mut FreePage) -> (r: PagerResult<()>)
        requires
            pager_wf(*old(pager)),
            page_exists(old(pager).pages_view(), old(pg).page_id_view()),
            old(pg).base_view() == PAGE_BODY_OFFSET,
        ensures
            pager_wf(*final(pager)),
            final(pager).page_size_view() == old(pager).page_size_view(),
            r is Ok,
            final(pager).pages_view() == stack_push_spec(old(pager).pages_view(), old(pg).page_id_view(),
                stored_free_head(old(pager).pages_view())),
    {
        proof { lemma_auto_spec_u64_to_from_le_bytes(); }
        pg.set_next(pager.get_freelist_head());
        pg.flush(pager)?;
        pager.set_freelist_head(Some(pg.page_id));
        Ok(())
    }

    fn get_free_head<P: Pager>(pager: &mut P) -> (r: PagerResult<Option<FreePage>>)
        requires
            pager_wf(*old(pager)),
        ensures
            final(pager).pages_view() == old(pager).pages_view(),
            final(pager).page_size_view() == old(pager).page_size_view(),
            match stored_free_head(old(pager).pages_view()) {
                None => r matches Ok(None),
                Some(h) => match type_check(old(pager).pages_view(), h, PageType::Free) {
                    Err(e) => r == Err::<Option<FreePage>, PagerError>(e),
                    Ok(_) => r matches Ok(Some(pg)) && pg.page_id_view() == h
                        && pg.next_view() == recorded_next(old(pager).pages_view()[h.0 as int]),
                },
            },
    {
        match pager.get_freelist_head() {
            Some(head) => {
                let pg = FreePage::get(&head, pager)?;
                Ok(Some(pg))
            },
            None => Ok(None),
        }
    }
}

/// Freeing a page other than the pager's own page succeeds when the page
/// exists, and makes it the head of the list, typed free, with the former
/// head as its next page; the pages other than page 0 and the freed page stay.
pub proof fn lemma_free_pushes(pages: Seq<Seq<u8>>, page_size: nat, id: PageId)
    requires
        pages_wf(pages, page_size),
        page_exists(pages, id),
        id.0 != 0,
    ensures
        ({
            let after = stack_free_spec(pages, id);
            &&& after.0 is Ok
            &&& pages_wf(after.1, page_size)
            &&& stored_free_head(after.1) == Some(id)
            &&& type_check(after.1, id, PageType::Free) is Ok
            &&& recorded_next(after.1[id.0 as int]) == stored_free_head(pages)
            &&& forall|k: int| 0 < k < pages.len() && k != id.0 ==> #[trigger] after.1[k] == pages[k]
        }),
{
    lemma_le_roundtrip();
    lemma_auto_spec_u64_to_from_le_bytes();
    let typed = freed_page(pages, id);
    let head = stored_free_head(typed);
    let w = write_page_bytes(typed, id, PAGE_BODY_OFFSET as int, le64(opt_page_id_raw(head)));
    let after = stack_free_spec(pages, id).1;
    assert(after == with_free_head(w, Some(id)));
    assert(extract(typed[0], 24, 8) =~= extract(pages[0], 24, 8));
    assert(head == stored_free_head(pages));
    assert(extract(after[0], 24, 8) =~= le64(id.0));
    assert(typed[id.0 as int][10] == page_type_byte(PageType::Free));
    assert(after[id.0 as int] == w[id.0 as int]);
    assert(after[id.0 as int][10] == page_type_byte(PageType::Free));
    assert(extract(after[id.0 as int], PAGE_BODY_OFFSET as int, 8) =~= le64(opt_page_id_raw(head)));
    assert(opt_page_id_raw(head) == u64_at(pages[0], 24));
    assert forall|i: int| 0 <= i < after.len() implies #[trigger] after[i].len() == page_size by {}
}

/// Taking a free page gives the head of the list; its next page becomes the
/// head, and the pages other than page 0 stay.
pub proof fn lemma_allocate_pops(pages: Seq<Seq<u8>>, page_size: nat, id: PageId)
    requires
        pages_wf(pages, page_size),
        stored_free_head(pages) == Some(id),
        type_check(pages, id, PageType::Free) is Ok,
    ensures
        ({
            let after = stack_alloc_spec(pages);
            &&& after.0 == Ok::<Option<PageId>, PagerError>(Some(id))
            &&& pages_wf(after.1, page_size)
            &&& stored_free_head(after.1) == recorded_next(pages[id.0 as int])
            &&& forall|k: int| 0 < k < pages.len() ==> #[trigger] after.1[k] == pages[k]
        }),
{
    lemma_le_roundtrip();
    lemma_auto_spec_u64_to_from_le_bytes();
    let after = stack_alloc_spec(pages).1;
    let next = recorded_next(pages[id.0 as int]);
    assert(extract(after[0], 24, 8) =~= le64(opt_page_id_raw(next)));
    assert(next is Some ==> next.unwrap().0 != 0);
    assert forall|i: int| 0 <= i < after.len() implies #[trigger] after[i].len() == page_size by {}
}

/// The list of free pages is a stack: after freeing `a` then `b`, taking free
/// pages gives `b`, then `a`, and leaves the head the list had before.
pub proof fn lemma_free_list_is_lifo(pages: Seq<Seq<u8>>, page_size: nat, a: PageId, b: PageId)
    requires
        pages_wf(pages, page_size),
        page_exists(pages, a),
        page_exists(pages, b),
        a.0 != 0,
        b.0 != 0,
        a != b,
    ensures
        ({
            let p1 = stack_free_spec(pages, a).1;
            let p2 = stack_free_spec(p1, b).1;
            let p3 = stack_alloc_spec(p2);
            let p4 = stack_alloc_spec(p3.1);
            &&& p3.0 == Ok::<Option<PageId>, PagerError>(Some(b))
            &&& p4.0 == Ok::<Option<PageId>, PagerError>(Some(a))
            &&& stored_free_head(p4.1) == stored_free_head(pages)
        }),
{
    let p1 = stack_free_spec(pages, a).1;
    lemma_free_pushes(pages, page_size, a);
    lemma_free_pushes(p1, page_size, b);
    let p2 = stack_free_spec(p1, b).1;
    lemma_allocate_pops(p2, page_size, b);
    let p3 = stack_alloc_spec(p2).1;
    assert(p3[a.0 as int] == p1[a.0 as int]);
    assert(stored_free_head(p3) == Some(a));
    lemma_allocate_pops(p3, page_size, a);
}

} // verus!
