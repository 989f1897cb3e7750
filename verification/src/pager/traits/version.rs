//! What a layout version of the pager names: its allocator, its headers, and
//! the smallest page it accepts.
use vstd::prelude::*;

verus! {

pub trait PagerVersion {
    /// Page management unit, to reuse freed pages.
    type Allocator;
    /// The type of pager header.
    type PagerHeader;
    /// The type of page header.
    type PageHeader;

    /// Minimum size of a page.
    fn min_page_size() -> u64;
}

impl PagerVersion for crate::pager::versions::v1::V1 {
    type Allocator = crate::pager::versions::v1::allocator::Allocator;
    type PagerHeader = crate::pager::versions::v1::pager::header::PagerHeader;
    type PageHeader = crate::pager::versions::v1::page::header::PageHeader;

    fn min_page_size() -> (r: u64)
        ensures
            r == 19,
    {
        crate::pager::versions::v1::page::min_page_size()
    }
}

} // verus!
