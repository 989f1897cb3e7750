//! Size of the cells of a node.
use vstd::prelude::*;
use crate::pager::bptree::cell_id::BPTreeCellId;
use crate::pager::bptree::node_offset::BPTreeNodeOffset;

verus! {

/// Size of each cell of a node.
#[derive(Debug, Clone, Copy, PartialEq, Eq, Structural)]
pub struct BPTreeCellSize(pub u64);

/// Size of each of `capacity` cells in the body of a page of `page_size`
/// bytes whose body starts at `body_offset`; the body size wraps when the
/// offset lies past the end of the page.
pub open spec fn generic_cell_size(page_size: u64, body_offset: u64, capacity: u8) -> u64 {
    ((page_size - body_offset + 0x1_0000_0000_0000_0000) % 0x1_0000_0000_0000_0000) as u64 / (capacity as u64)
}

impl BPTreeCellSize {
    pub fn from(page_size: u64, bptree_body_offset: u64, capacity: u8) -> (r: Self)
        requires
            capacity > 0,
        ensures
            r.0 == generic_cell_size(page_size, bptree_body_offset, capacity),
    {
        let body_size = page_size.wrapping_sub(bptree_body_offset);
        BPTreeCellSize(body_size / (capacity as u64))
    }

    /// Offset of the start of cell `cell_id` from the base of the body.
    pub fn offset_of(self, cell_id: BPTreeCellId) -> (r: BPTreeNodeOffset)
        requires
            self.0 * cell_id.0 <= u64::MAX,
        ensures
            r.0 == self.0 * cell_id.0,
    {
        let id = cell_id.0 as u64;
        assert(id * self.0 == self.0 * cell_id.0) by (nonlinear_arith)
            requires
                id == cell_id.0,
        ;
        BPTreeNodeOffset(id * self.0)
    }
}

} // verus!
