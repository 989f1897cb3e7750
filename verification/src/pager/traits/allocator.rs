//! What a page allocator offers: take a free page, free a page.
use vstd::prelude::*;
use crate::pager::id::PageId;
use crate::pager::error::PagerResult;
use crate::pager::traits::{Pager, pager_wf, page_exists};
use crate::pager::allocator::{stack_alloc_spec, stack_free_spec};
use crate::pager::versions::v1::allocator::{alloc_spec, free_spec};

verus! {

pub trait Allocator {
    /// Take a free page, if there is one.
    fn allocate<P: Pager>(pager: &mut P) -> (r: PagerResult<Option<PageId>>)
        requires
            pager_wf(*old(pager)),
        ensures
            pager_wf(*final(pager)),
            final(pager).page_size_view() == old(pager).page_size_view(),
            r matches Ok(Some(id)) ==> page_exists(final(pager).pages_view(), id),
    ;

    /// Free the page for later reuse.
    fn free<P: Pager>(pager: &mut P, page_id: &PageId) -> (r: PagerResult<()>)
        requires
            pager_wf(*old(pager)),
        ensures
            pager_wf(*final(pager)),
            final(pager).page_size_view() == old(pager).page_size_view(),
            r is Ok ==> page_exists(old(pager).pages_view(), *page_id),
    ;
}

impl Allocator for crate::pager::allocator::Allocator {
    fn allocate<P: Pager>(pager: &mut P) -> (r: PagerResult<Option<PageId>>)
        ensures
            (r, final(pager).pages_view()) == stack_alloc_spec(old(pager).pages_view()),
    {
        crate::pager::allocator::Allocator::allocate(pager)
    }

    fn free<P: Pager>(pager: &mut P, page_id: &PageId) -> (r: PagerResult<()>)
        ensures
            (r, final(pager).pages_view()) == stack_free_spec(old(pager).pages_view(), *page_id),
    {
        crate::pager::allocator::Allocator::free(pager, page_id)
    }
}

impl Allocator for crate::pager::versions::v1::allocator::Allocator {
    fn allocate<P: Pager>(pager: &mut P) -> (r: PagerResult<Option<PageId>>)
        ensures
            (r, final(pager).pages_view()) == alloc_spec(old(pager).pages_view()),
    {
        crate::pager::versions::v1::allocator::Allocator::allocate(pager)
    }

    fn free<P: Pager>(pager: &mut P, page_id: &PageId) -> (r: PagerResult<()>)
        ensures
            (r, final(pager).pages_view()) == free_spec(old(pager).pages_view(), *page_id),
    {
        crate::pager::versions::v1::allocator::Allocator::free(pager, page_id)
    }
}

} // verus!
