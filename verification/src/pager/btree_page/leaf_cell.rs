//! Cells of leaf pages.
use vstd::prelude::*;
use crate::pager::page_id::PageId;

verus! {

/// A tree leaf cell: the element's key and size, the part of it held in the
/// page, and the overflow page that holds the rest.
#[derive(Debug, Clone, Copy, PartialEq, Eq, Structural)]
pub struct TreeLeafCell {
    /// The element index
    pub element_id: u64,
    /// The total size, including overflow
    pub size: u64,
    /// The portion stored on the current page
    pub initial_size: u64,
    /// Pointer to the overflow page
    pub overflow: PageId,
}

} // verus!
