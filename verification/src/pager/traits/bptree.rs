//! What a B+ tree leaf offers: made with a first cell, cells found by key,
//! inserted and removed.
use vstd::prelude::*;
use crate::pager::id::PageId;
use crate::pager::error::PagerResult;
use crate::pager::traits::{Pager, pager_wf};
use crate::pager::btree::leaf::BPTreeLeafCell;
use crate::paging::bptree::{BPTreeCellId, BPTreeCellSize, node_ok};
use crate::pager::error::PagerError;
use crate::paging::bptree::remove_cell_checked;
use crate::paging::bptree::leaf::{find_spec, max_in_page, leaf_insert_outcome, leaf_new_outcome, insert_target_in_range};

verus! {

pub trait BPTreeLeaf {
    /// Make an empty leaf, then insert `cell` in it.
    fn new<P: Pager, C: BPTreeLeafCell>(pager: &mut P, capacity: u8, cell: &C) -> (r: PagerResult<PageId>)
        requires
            pager_wf(*old(pager)),
            capacity > 0,
        ensures
            pager_wf(*final(pager)),
            final(pager).page_size_view() == old(pager).page_size_view(),
            leaf_new_outcome(old(pager).pages_view(), old(pager).page_size_view(), capacity, r, final(pager).pages_view()),
    ;

    /// The first cell whose key is at least `key`.
    fn find_nearest_cell_by_key<P: Pager>(pager: &P, page_id: &PageId, key: u64) -> (r: PagerResult<Option<BPTreeCellId>>)
        requires
            pager_wf(*pager),
            node_ok(pager.pages_view(), *page_id),
        ensures
            r == find_spec(pager.pages_view(), pager.page_size_view(), *page_id, key),
    ;

    /// The first cell whose key is at least `key`.
    fn find_cell_by_key<P: Pager>(pager: &P, page_id: &PageId, key: u64) -> (r: PagerResult<Option<BPTreeCellId>>)
        requires
            pager_wf(*pager),
            node_ok(pager.pages_view(), *page_id),
        ensures
            r == find_spec(pager.pages_view(), pager.page_size_view(), *page_id, key),
    ;

    /// Insert `cell` in the leaf.
    fn insert<P: Pager, C: BPTreeLeafCell>(pager: &mut P, page_id: &PageId, cell: &C) -> (r: PagerResult<()>)
        requires
            pager_wf(*old(pager)),
            node_ok(old(pager).pages_view(), *page_id),
            forall|key: u64| call_ensures(C::get_key, (cell,), key)
                ==> insert_target_in_range(old(pager).pages_view(), old(pager).page_size_view(), *page_id, key),
        ensures
            pager_wf(*final(pager)),
            final(pager).page_size_view() == old(pager).page_size_view(),
            exists|key: u64, element: &[u8]| {
                &&& call_ensures(C::get_key, (cell,), key)
                &&& call_ensures(C::borrow_element, (cell,), element)
                &&& leaf_insert_outcome(old(pager).pages_view(), old(pager).page_size_view(), *page_id, key,
                    element@, r, final(pager).pages_view())
            },
    ;

    /// Remove the first cell whose key is at least `key`, if any.
    fn remove_by_key<P: Pager>(pager: &mut P, page_id: &PageId, key: u64) -> (r: PagerResult<()>)
        requires
            pager_wf(*old(pager)),
            node_ok(old(pager).pages_view(), *page_id),
        ensures
            pager_wf(*final(pager)),
            final(pager).page_size_view() == old(pager).page_size_view(),
    ;

    /// Room for the element in a cell of the given size.
    fn max_in_page_element_size(size: &BPTreeCellSize) -> (r: u64)
        ensures
            r == max_in_page(size.0),
    ;
}

impl BPTreeLeaf for crate::paging::bptree::leaf::BPTreeLeaf {
    fn new<P: Pager, C: BPTreeLeafCell>(pager: &mut P, capacity: u8, cell: &C) -> (r: PagerResult<PageId>) {
        let r = crate::paging::bptree::leaf::BPTreeLeaf::new(pager, capacity, cell.get_key(), cell.borrow_element());
        r
    }

    fn find_nearest_cell_by_key<P: Pager>(pager: &P, page_id: &PageId, key: u64) -> (r: PagerResult<Option<BPTreeCellId>>) {
        crate::paging::bptree::leaf::BPTreeLeaf::find_nearest_cell_by_key(pager, page_id, key)
    }

    fn find_cell_by_key<P: Pager>(pager: &P, page_id: &PageId, key: u64) -> (r: PagerResult<Option<BPTreeCellId>>) {
        crate::paging::bptree::leaf::BPTreeLeaf::find_cell_by_key(pager, page_id, key)
    }

    fn insert<P: Pager, C: BPTreeLeafCell>(pager: &mut P, page_id: &PageId, cell: &C) -> (r: PagerResult<()>) {
        let get_key = C::get_key;
        let get_element = C::borrow_element;
        let key = get_key(cell);
        let element = get_element(cell);
        let r = crate::paging::bptree::leaf::BPTreeLeaf::insert(pager, page_id, key, element);
        assert(call_ensures(C::get_key, (cell,), key));
        assert(call_ensures(C::borrow_element, (cell,), element));
        assert(leaf_insert_outcome(old(pager).pages_view(), old(pager).page_size_view(), *page_id, key,
            element@, r, pager.pages_view()));
        r
    }

    fn remove_by_key<P: Pager>(pager: &mut P, page_id: &PageId, key: u64) -> (r: PagerResult<()>)
        ensures
            match find_spec(old(pager).pages_view(), old(pager).page_size_view(), *page_id, key) {
                Err(e) => r == Err::<(), PagerError>(e) && final(pager).pages_view() == old(pager).pages_view(),
                Ok(None) => r is Ok && final(pager).pages_view() == old(pager).pages_view(),
                Ok(Some(c)) => (r, final(pager).pages_view()) == remove_cell_checked(old(pager).pages_view(), old(pager).page_size_view(), *page_id, c.0 as int),
            },
    {
        crate::paging::bptree::leaf::BPTreeLeaf::remove(pager, page_id, key)
    }

    fn max_in_page_element_size(size: &BPTreeCellSize) -> (r: u64) {
        crate::paging::bptree::leaf::BPTreeLeaf::max_in_page_element_size(size)
    }
}

} // verus!
