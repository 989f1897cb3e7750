//! Page-level types: page types, sizes, offsets, nonces, headers and metadata.
pub mod page_type;
pub mod size;
pub mod offset;
pub mod nonce;
pub mod header;
pub mod metadata;
pub mod error;

use vstd::prelude::*;

verus! {

/// Reading the body of a page, or the whole page.
pub trait ReadPageSection {
    /// Borrow only the content of the body
    fn borrow_body(&self) -> &[u8];

    /// Borrow the whole content
    fn borrow_all(&self) -> &[u8];
}

/// Writing into the body of a page, or anywhere in it.
pub trait WritePageSection: ReadPageSection {
    /// The page holds at least its header.
    spec fn holds_sections(&self) -> bool;

    /// Write `data` in the body from `offset`, as far as the page goes.
    fn write_body(&mut self, offset: usize, data: &[u8]) -> (r: bool)
        requires
            old(self).holds_sections(),
        ensures
            final(self).holds_sections(),
    ;

    /// Write `data` in the page from `offset`, as far as the page goes.
    fn write_all(&mut self, offset: usize, data: &[u8]) -> (r: bool)
        requires
            old(self).holds_sections(),
        ensures
            final(self).holds_sections(),
    ;
}

} // verus!
