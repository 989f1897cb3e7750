//! Moves of byte sections between pages.
use vstd::prelude::*;
use crate::io::{extract, splice};
use crate::pager::id::PageId;
use crate::pager::error::PagerResult;
use crate::pager::traits::{Pager, pager_wf, access_check, write_page_bytes};

verus! {

/// Copy the `size` bytes at `from_offset` in `from_page` to `to_offset` in
/// `to_page`. The section is read whole before it is written, so the two may overlap.
pub fn move_page_section<P: Pager>(
    pager: &mut P,
    from_page: &PageId,
    from_offset: &u64,
    to_page: &PageId,
    to_offset: &u64,
    size: usize,
) -> (r: PagerResult<()>)
    requires
        pager_wf(*old(pager)),
    ensures
        pager_wf(*final(pager)),
        final(pager).page_size_view() == old(pager).page_size_view(),
        ({
            let pages = old(pager).pages_view();
            let ps = old(pager).page_size_view();
            let rd = access_check(pages, ps, *from_page, *from_offset as int, size as int);
            let wr = access_check(pages, ps, *to_page, *to_offset as int, size as int);
            &&& rd is Err ==> r == rd && final(pager).pages_view() == pages
            &&& rd is Ok ==> r == wr
            &&& rd is Ok && wr is Err ==> final(pager).pages_view() == pages
            &&& rd is Ok && wr is Ok ==> final(pager).pages_view() == write_page_bytes(
                pages,
                *to_page,
                *to_offset as int,
                extract(pages[from_page.0 as int], *from_offset as int, size as int),
            )
        }),
{
    let section = pager.read_from_page(from_page, *from_offset, size)?;
    pager.write_all_to_page(to_page, section.as_slice(), *to_offset)
}

} // verus!
