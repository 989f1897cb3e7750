//! What a B+ tree node of the first layout offers.
use vstd::prelude::*;
use crate::pager::id::PageId;
use crate::pager::error::PagerResult;
use crate::pager::traits::{Pager, pager_wf};
use crate::pager::bptree::node_type::BPTreeNodeType;
use crate::pager::error::PagerError;
use crate::pager::traits::{read_spec, write_spec, MAX_PAGE_COUNT};
use crate::pager::bptree::header::BPTreeNodeHeader;
use crate::paging::bptree::{BPTreeCellId, BPTreeNodeOffset, node_ok, MAX_CELL_OFFSET, node_appended, insert_cell_checked, remove_cell_checked, cell_access};

verus! {

pub trait BPTreeNode {
    /// Make a page holding an empty node.
    fn new<P: Pager>(pager: &mut P, node_type: BPTreeNodeType, capacity: u8) -> (r: PagerResult<PageId>)
        requires
            pager_wf(*old(pager)),
        ensures
            pager_wf(*final(pager)),
            final(pager).page_size_view() == old(pager).page_size_view(),
    ;

    /// Open room for a cell at `cell_id`.
    fn insert_cell<P: Pager>(pager: &mut P, page_id: &PageId, cell_id: &BPTreeCellId) -> (r: PagerResult<()>)
        requires
            pager_wf(*old(pager)),
            node_ok(old(pager).pages_view(), *page_id),
        ensures
            pager_wf(*final(pager)),
            final(pager).page_size_view() == old(pager).page_size_view(),
    ;

    /// Remove the cell at `cell_id`.
    fn remove_cell<P: Pager>(pager: &mut P, page_id: &PageId, cell_id: &BPTreeCellId) -> (r: PagerResult<()>)
        requires
            pager_wf(*old(pager)),
            node_ok(old(pager).pages_view(), *page_id),
        ensures
            pager_wf(*final(pager)),
            final(pager).page_size_view() == old(pager).page_size_view(),
    ;

    /// Write `cell` at `cell_offset` in the cell at `cell_id`.
    fn write_cell<P: Pager>(pager: &mut P, page_id: &PageId, cell_id: &BPTreeCellId, cell_offset: &BPTreeNodeOffset, cell: &[u8]) -> (r: PagerResult<()>)
        requires
            pager_wf(*old(pager)),
            node_ok(old(pager).pages_view(), *page_id),
            cell_offset.0 <= MAX_CELL_OFFSET,
        ensures
            pager_wf(*final(pager)),
            final(pager).page_size_view() == old(pager).page_size_view(),
    ;

    /// Read `len` bytes at `cell_offset` in the cell at `cell_id`.
    fn read_cell<P: Pager>(pager: &P, page_id: &PageId, cell_id: &BPTreeCellId, cell_offset: &BPTreeNodeOffset, len: usize) -> (r: PagerResult<Vec<u8>>)
        requires
            pager_wf(*pager),
            node_ok(pager.pages_view(), *page_id),
            cell_offset.0 <= MAX_CELL_OFFSET,
    ;
}

impl BPTreeNode for crate::paging::bptree::BPTreeNode {
    fn new<P: Pager>(pager: &mut P, node_type: BPTreeNodeType, capacity: u8) -> (r: PagerResult<PageId>)
        ensures
            old(pager).pages_view().len() < MAX_PAGE_COUNT ==> {
                &&& r == Ok::<PageId, PagerError>(PageId(old(pager).pages_view().len() as u64))
                &&& node_appended(old(pager).pages_view(), final(pager).pages_view(),
                        BPTreeNodeHeader { node_type, len: 0, capacity }, old(pager).page_size_view())
            },
            old(pager).pages_view().len() >= MAX_PAGE_COUNT ==> {
                &&& r == Err::<PageId, PagerError>(PagerError::PageFull(PageId(old(pager).pages_view().len() as u64)))
                &&& final(pager).pages_view() == old(pager).pages_view()
            },
    {
        crate::paging::bptree::BPTreeNode::new(pager, node_type, capacity)
    }

    fn insert_cell<P: Pager>(pager: &mut P, page_id: &PageId, cell_id: &BPTreeCellId) -> (r: PagerResult<()>)
        ensures
            (r, final(pager).pages_view()) == insert_cell_checked(old(pager).pages_view(), old(pager).page_size_view(), *page_id, cell_id.0 as int),
    {
        crate::paging::bptree::BPTreeNode::insert_cell(pager, page_id, cell_id)
    }

    fn remove_cell<P: Pager>(pager: &mut P, page_id: &PageId, cell_id: &BPTreeCellId) -> (r: PagerResult<()>)
        ensures
            (r, final(pager).pages_view()) == remove_cell_checked(old(pager).pages_view(), old(pager).page_size_view(), *page_id, cell_id.0 as int),
    {
        crate::paging::bptree::BPTreeNode::remove_cell(pager, page_id, cell_id)
    }

    fn write_cell<P: Pager>(pager: &mut P, page_id: &PageId, cell_id: &BPTreeCellId, cell_offset: &BPTreeNodeOffset, cell: &[u8]) -> (r: PagerResult<()>)
        ensures
            match cell_access(old(pager).pages_view(), old(pager).page_size_view(), *page_id, cell_id.0 as int, cell_offset.0 as int) {
                Err(e) => r == Err::<(), PagerError>(e) && final(pager).pages_view() == old(pager).pages_view(),
                Ok(pos) => write_spec(old(pager).pages_view(), old(pager).page_size_view(), final(pager).pages_view(), *page_id, pos, cell@, r),
            },
    {
        crate::paging::bptree::BPTreeNode::write_cell(pager, page_id, cell_id, cell_offset, cell)
    }

    fn read_cell<P: Pager>(pager: &P, page_id: &PageId, cell_id: &BPTreeCellId, cell_offset: &BPTreeNodeOffset, len: usize) -> (r: PagerResult<Vec<u8>>)
        ensures
            match cell_access(pager.pages_view(), pager.page_size_view(), *page_id, cell_id.0 as int, cell_offset.0 as int) {
                Err(e) => r == Err::<Vec<u8>, PagerError>(e),
                Ok(pos) => match r {
                    Ok(v) => read_spec(pager.pages_view(), pager.page_size_view(), *page_id, pos, len as int) == Ok::<Seq<u8>, PagerError>(v@),
                    Err(e) => read_spec(pager.pages_view(), pager.page_size_view(), *page_id, pos, len as int) == Err::<Seq<u8>, PagerError>(e),
                },
            },
    {
        crate::paging::bptree::BPTreeNode::read_cell(pager, page_id, cell_id, cell_offset, len)
    }
}

} // verus!
