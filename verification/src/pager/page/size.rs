//! Sizes of pages and of blocks inside them.
use vstd::prelude::*;
use crate::pager::page::offset::PageOffset;

verus! {

/// Size of a page, in bytes.
#[derive(Debug, Clone, Copy, PartialEq, Eq, Structural)]
pub struct PageSize(pub u64);

/// Size of a block of bytes inside a page.
#[derive(Debug, Clone, Copy, PartialEq, Eq, Structural)]
pub struct BlockSize(pub u64);

impl PageSize {
    /// Number of bytes a page size occupies once encoded.
    pub fn size_of() -> (r: u64)
        ensures
            r == 8,
    {
        8
    }

    /// The bytes of the page that lie from `offset` on (wrapping below zero).
    pub fn sub_offset(self, offset: PageOffset) -> (r: BlockSize)
        ensures
            r.0 == (if offset.0 <= self.0 { self.0 - offset.0 } else { self.0 + 0x1_0000_0000_0000_0000 - offset.0 }),
    {
        BlockSize(self.0.wrapping_sub(offset.0 as u64))
    }
}

impl BlockSize {
    /// Number of bytes a block size occupies once encoded.
    pub fn size_of() -> (r: u64)
        ensures
            r == 8,
    {
        8
    }
}

} // verus!
