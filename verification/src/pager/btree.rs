//! Offsets of a B+ tree node inside its page: the node header starts right
//! after the page header, and the cells are counted from that same place.
use vstd::prelude::*;
use crate::pager::offset::PAGE_BODY_OFFSET;

pub mod branch;
pub mod leaf;

verus! {

/// Where a node starts in its page.
#[derive(Debug, Clone, Copy, PartialEq, Eq, Structural)]
pub struct BPTreeNodeOffset(pub u64);

/// Where the node header starts in its page.
#[derive(Debug, Clone, Copy, PartialEq, Eq, Structural)]
pub struct BPTreeNodeHeaderOffset(pub u64);

/// Where the cells of a node are counted from in its page.
#[derive(Debug, Clone, Copy, PartialEq, Eq, Structural)]
pub struct BPTreeNodeBodyOffset(pub u64);

/// A node starts at the body of its page.
pub const BP_TREE_OFFSET: u64 = 19;

/// The node header starts where the node starts.
pub const BP_TREE_HEADER_OFFSET: u64 = 19;

/// The cells are counted from where the node header starts.
pub const BP_TREE_BODY_OFFSET: u64 = 19;

/// The node of a page starts at the body of the page.
pub proof fn lemma_node_offsets()
    ensures
        BP_TREE_OFFSET == PAGE_BODY_OFFSET,
        BP_TREE_HEADER_OFFSET == BP_TREE_OFFSET,
        BP_TREE_BODY_OFFSET == BP_TREE_HEADER_OFFSET,
{
}

impl BPTreeNodeHeaderOffset {
    /// The offset in the page.
    pub fn to_page_offset(self) -> (r: u64)
        ensures
            r == self.0,
    {
        self.0
    }
}

impl BPTreeNodeBodyOffset {
    /// The offset in the page.
    pub fn const_into(self) -> (r: u64)
        ensures
            r == self.0,
    {
        self.0
    }
}

} // verus!
