//! Cells of leaf nodes, counted from the base of the node's cells: each cell
//! starts with a 32-byte cell header, then holds the start of its element.
use vstd::prelude::*;
use crate::pager::btree::BP_TREE_BODY_OFFSET;
use crate::paging::bptree::leaf::{BPTreeLeafCellHeader, CELL_ELEMENT_OFFSET};

verus! {

/// Size of each cell of a leaf.
#[derive(Debug, Clone, Copy, PartialEq, Eq, Structural)]
pub struct BPTreeLeafCellSize(pub u64);

/// Where a cell starts in its page.
#[derive(Debug, Clone, Copy, PartialEq, Eq, Structural)]
pub struct BPTreeLeafCellOffset(pub u64);

/// Where the header of a cell starts in its page.
#[derive(Debug, Clone, Copy, PartialEq, Eq, Structural)]
pub struct BPTreeLeafCellHeadOffset(pub u64);

/// Where the element of a cell starts in its page.
#[derive(Debug, Clone, Copy, PartialEq, Eq, Structural)]
pub struct BPTreeLeafCellBodyOffset(pub u64);

/// Size of each of `capacity` cells of a page of `page_size` bytes: the room
/// after the base of the cells, shared out; none if the page ends before it.
pub open spec fn leaf_cell_size(page_size: u64, capacity: u8) -> u64 {
    if BP_TREE_BODY_OFFSET >= page_size {
        0
    } else {
        ((page_size - BP_TREE_BODY_OFFSET) / (capacity as int)) as u64
    }
}

impl BPTreeLeafCellSize {
    pub fn from(page_size: u64, capacity: u8) -> (r: Self)
        requires
            capacity > 0,
        ensures
            r.0 == leaf_cell_size(page_size, capacity),
    {
        BPTreeLeafCellSize(Self::raw_cell_size(page_size, capacity))
    }

    fn raw_cell_size(page_size: u64, capacity: u8) -> (r: u64)
        requires
            capacity > 0,
        ensures
            r == leaf_cell_size(page_size, capacity),
    {
        if BP_TREE_BODY_OFFSET >= page_size {
            return 0;
        }
        let body_size = page_size - BP_TREE_BODY_OFFSET;
        body_size / (capacity as u64)
    }

    /// Room for the element in a cell: what the cell leaves after its
    /// header, none when the header fills it.
    pub fn max_in_page_element_size(&self) -> (r: u64)
        ensures
            r == (if self.0 > CELL_ELEMENT_OFFSET { (self.0 - CELL_ELEMENT_OFFSET) as u64 } else { 0 }),
    {
        let cell_size = self.0;
        if cell_size <= BPTreeLeafCellHeader::size_of() {
            return 0;
        }
        cell_size - BPTreeLeafCellHeader::size_of()
    }

    /// Where cell `index` starts in its page.
    pub fn offset_of(self, index: u8) -> (r: BPTreeLeafCellOffset)
        requires
            BP_TREE_BODY_OFFSET + index * self.0 <= u64::MAX,
        ensures
            r.0 == BP_TREE_BODY_OFFSET + index * self.0,
    {
        let i = index as u64;
        assert(i * self.0 <= u64::MAX - 19) by (nonlinear_arith)
            requires
                i == index,
                19 + index * self.0 <= u64::MAX,
        ;
        BPTreeLeafCellOffset(BP_TREE_BODY_OFFSET + i * self.0)
    }
}

impl BPTreeLeafCellOffset {
    /// Where the header of the cell starts.
    pub fn to_head(&self) -> (r: BPTreeLeafCellHeadOffset)
        ensures
            r.0 == self.0,
    {
        BPTreeLeafCellHeadOffset(self.0)
    }

    /// Where the element of the cell starts.
    pub fn to_body(&self) -> (r: BPTreeLeafCellBodyOffset)
        requires
            self.0 + CELL_ELEMENT_OFFSET <= u64::MAX,
        ensures
            r.0 == self.0 + CELL_ELEMENT_OFFSET,
    {
        self.to_head().to_body()
    }
}

impl BPTreeLeafCellHeadOffset {
    /// The offset in the page.
    pub fn to_page_offset(&self) -> (r: u64)
        ensures
            r == self.0,
    {
        self.0
    }

    /// Where the overflow field of the cell header starts: three 64-byte
    /// steps after the start of the header, as this layout counts it.
    pub fn to_overflow_field(&self) -> (r: u64)
        requires
            self.0 + 192 <= u64::MAX,
        ensures
            r == self.0 + 192,
    {
        self.0 + 64 * 3
    }

    /// Where the element of the cell starts.
    pub fn to_body(&self) -> (r: BPTreeLeafCellBodyOffset)
        requires
            self.0 + CELL_ELEMENT_OFFSET <= u64::MAX,
        ensures
            r.0 == self.0 + CELL_ELEMENT_OFFSET,
    {
        BPTreeLeafCellBodyOffset(self.0 + BPTreeLeafCellHeader::size_of())
    }
}

impl BPTreeLeafCellBodyOffset {
    /// The offset in the page.
    pub fn to_page_offset(&self) -> (r: u64)
        ensures
            r == self.0,
    {
        self.0
    }
}

/// What a leaf stores: a key, and an element given as bytes.
pub trait BPTreeLeafCell {
    fn borrow_element(&self) -> &[u8];

    fn get_key(&self) -> u64;
}

} // verus!
