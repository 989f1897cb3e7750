//! Errors of page operations.
use vstd::prelude::*;
use crate::pager::id::PageId;
use crate::pager::page::page_type::PageType;

verus! {

#[derive(Debug, Clone, Copy, PartialEq, Eq, Structural)]
pub enum PageError {
    WrongPageType { expecting: PageType, got: PageType },
    PageNotOpened(PageId),
    PageOverflow,
    PageFull(PageId),
}

} // verus!
