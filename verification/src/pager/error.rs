//! Errors of the pager and of the structures stored in its pages.
use vstd::prelude::*;
use crate::pager::id::PageId;
use crate::pager::page::page_type::PageType;
use crate::pager::page::error::PageError;

verus! {

#[derive(Debug, Clone, Copy, PartialEq, Eq, Structural)]
pub enum PagerError {
    /// The page does not hold the expected type.
    WrongPageType { expecting: PageType, got: PageType },
    /// No page has this identifier.
    PageNotOpened(PageId),
    /// An access falls outside the page, or a stored length does not fit its page.
    PageOverflow,
    PageFull(PageId),
    /// A cell would be inserted past the end of the node's cells.
    SparseCell,
    /// A cell index is not below the node's number of cells.
    OutOfBoundCell,
}

pub type PagerResult<T> = Result<T, PagerError>;

impl PagerError {
    /// The pager error that carries the same information as a page error.
    pub fn from_page_error(err: PageError) -> (r: PagerError)
        ensures
            r == (match err {
                PageError::WrongPageType { expecting, got } => PagerError::WrongPageType { expecting, got },
                PageError::PageNotOpened(id) => PagerError::PageNotOpened(id),
                PageError::PageOverflow => PagerError::PageOverflow,
                PageError::PageFull(id) => PagerError::PageFull(id),
            }),
    {
        match err {
            PageError::WrongPageType { expecting, got } => PagerError::WrongPageType { expecting, got },
            PageError::PageNotOpened(id) => PagerError::PageNotOpened(id),
            PageError::PageOverflow => PagerError::PageOverflow,
            PageError::PageFull(id) => PagerError::PageFull(id),
        }
    }
}

} // verus!
