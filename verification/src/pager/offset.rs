//! Offsets inside a page.
use vstd::prelude::*;

verus! {

/// An absolute offset inside a page.
pub type PageOffset = u64;

/// Where the page header starts.
pub const PAGE_HEADER_OFFSET: PageOffset = 0;

/// Where the page body starts: right after the 19-byte page header.
pub const PAGE_BODY_OFFSET: PageOffset = 19;

} // verus!
