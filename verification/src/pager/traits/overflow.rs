//! What overflow storage offers: spread bytes over a chain of pages, and read
//! them back from the first page of the chain.
use vstd::prelude::*;
use crate::pager::id::PageId;
use crate::pager::error::PagerResult;
use crate::pager::traits::{Pager, pager_wf};
use crate::pager::error::PagerError;
use crate::pager::traits::{PAGE_COUNT_OFFSET, MAX_PAGE_COUNT};
use crate::pager::overflow::{chain_content, chain_within, pages_needed, OVERFLOW_DATA_OFFSET};

verus! {

pub trait Overflow {
    /// Store `data` in a chain of new pages, and return its first page, if any.
    fn write<P: Pager>(pager: &mut P, data: &[u8]) -> (r: PagerResult<Option<PageId>>)
        requires
            pager_wf(*old(pager)),
        ensures
            pager_wf(*final(pager)),
            final(pager).page_size_view() == old(pager).page_size_view(),
    ;

    /// The bytes of the chain that starts at `page_id`.
    fn read<P: Pager>(pager: &P, page_id: &PageId) -> (r: PagerResult<Vec<u8>>)
        requires
            pager_wf(*pager),
        ensures
            r matches Ok(v) ==> chain_content(pager.pages_view(), pager.page_size_view(), page_id.0) == Ok::<Seq<u8>, PagerError>(v@),
    ;
}

impl Overflow for crate::pager::overflow::Overflow {
    fn write<P: Pager>(pager: &mut P, data: &[u8]) -> (r: PagerResult<Option<PageId>>)
        ensures
            final(pager).pages_view().len() >= old(pager).pages_view().len(),
            forall|i: int| 1 <= i < old(pager).pages_view().len() ==> #[trigger] final(pager).pages_view()[i] == old(pager).pages_view()[i],
            forall|k: int| 0 <= k < old(pager).page_size_view() && !(PAGE_COUNT_OFFSET <= k < PAGE_COUNT_OFFSET + 8)
                ==> #[trigger] final(pager).pages_view()[0][k] == old(pager).pages_view()[0][k],
            data@.len() == 0 ==> r == Ok::<Option<PageId>, PagerError>(None) && final(pager).pages_view() == old(pager).pages_view(),
            data@.len() > 0 && old(pager).page_size_view() <= OVERFLOW_DATA_OFFSET ==>
                r == Err::<Option<PageId>, PagerError>(PagerError::PageOverflow) && final(pager).pages_view() == old(pager).pages_view(),
            data@.len() > 0 && old(pager).page_size_view() > OVERFLOW_DATA_OFFSET ==> {
                let needed = pages_needed(data@.len(), (old(pager).page_size_view() - OVERFLOW_DATA_OFFSET) as nat);
                &&& old(pager).pages_view().len() + needed <= MAX_PAGE_COUNT ==> {
                    &&& r == Ok::<Option<PageId>, PagerError>(Some(PageId(old(pager).pages_view().len() as u64)))
                    &&& chain_content(final(pager).pages_view(), final(pager).page_size_view(), old(pager).pages_view().len() as u64)
                        == Ok::<Seq<u8>, PagerError>(data@)
                    &&& chain_within(final(pager).pages_view(), old(pager).pages_view().len() as u64,
                        final(pager).pages_view().len(), old(pager).pages_view().len())
                }
                &&& old(pager).pages_view().len() + needed > MAX_PAGE_COUNT ==> r is Err
                &&& r is Err ==> r == Err::<Option<PageId>, PagerError>(PagerError::PageFull(PageId(MAX_PAGE_COUNT)))
            },
    {
        crate::pager::overflow::Overflow::write(pager, data)
    }

    fn read<P: Pager>(pager: &P, page_id: &PageId) -> (r: PagerResult<Vec<u8>>)
        ensures
            match r {
                Ok(v) => chain_content(pager.pages_view(), pager.page_size_view(), page_id.0) == Ok::<Seq<u8>, PagerError>(v@),
                Err(e) => chain_content(pager.pages_view(), pager.page_size_view(), page_id.0) == Err::<Seq<u8>, PagerError>(e),
            },
    {
        crate::pager::overflow::Overflow::read(pager, page_id)
    }
}

} // verus!
