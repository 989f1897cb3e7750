use brouas::pager::btree::leaf::BPTreeLeafCell;
use brouas::pager::memory::MemoryPager;
use brouas::pager::page::size::PageSize;
use brouas::pager::page_header::PageHeader as StreamPageHeader;
use brouas::pager::page_type::PageType as StreamPageType;
use brouas::pager::traits::bptree::BPTreeLeaf as LeafOps;
use brouas::pager::versions::v1::bptree::BPTreeNode as NodeOps;
use brouas::pager::bptree::node_type::BPTreeNodeType;
use brouas::paging::bptree::leaf::BPTreeLeaf;
use brouas::paging::bptree::{BPTreeCellId, BPTreeNode, BPTreeNodeOffset};
use brouas::io::ReadError;
use brouas::pager::error::PagerError;
use brouas::pager::id::PageId;
use brouas::paging::bptree::leaf::BPTreeLeafCellHeader;

struct Cell {
    key: u64,
    element: Vec<u8>,
}

impl BPTreeLeafCell for Cell {
    fn borrow_element(&self) -> &[u8] {
        &self.element
    }

    fn get_key(&self) -> u64 {
        self.key
    }
}

#[test]
fn leaf_through_its_trait() {
    let mut pager = MemoryPager::new(PageSize(4000)).unwrap();
    let first = Cell { key: 10, element: vec![1; 20] };
    // The first insertion in an empty leaf finds no cell and is refused.
    assert_eq!(<BPTreeLeaf as LeafOps>::new(&mut pager, 4, &first), Err(PagerError::SparseCell));
    let id = PageId(1);
    assert_eq!(BPTreeNode::read_header(&pager, &id).unwrap().len, 0);
    // Put a cell of key 10 in by hand.
    <BPTreeNode as NodeOps>::insert_cell(&mut pager, &id, &BPTreeCellId(0)).unwrap();
    let header = BPTreeLeafCellHeader { index: 10, size: 0, in_page_size: 0, overflow: None };
    <BPTreeNode as NodeOps>::write_cell(&mut pager, &id, &BPTreeCellId(0), &BPTreeNodeOffset(0), &header.to_bytes()).unwrap();
    let second = Cell { key: 5, element: vec![2; 20] };
    <BPTreeLeaf as LeafOps>::insert(&mut pager, &id, &second).unwrap();
    assert_eq!(BPTreeNode::read_header(&pager, &id).unwrap().len, 2);
    assert_eq!(<BPTreeLeaf as LeafOps>::find_cell_by_key(&pager, &id, 5).unwrap(), Some(BPTreeCellId(0)));
    assert_eq!(<BPTreeLeaf as LeafOps>::find_nearest_cell_by_key(&pager, &id, 7).unwrap(), Some(BPTreeCellId(1)));
    assert_eq!(<BPTreeLeaf as LeafOps>::find_cell_by_key(&pager, &id, 11).unwrap(), None);
    // A key above every key finds no cell either.
    let third = Cell { key: 11, element: vec![3; 4] };
    assert_eq!(<BPTreeLeaf as LeafOps>::insert(&mut pager, &id, &third), Err(PagerError::SparseCell));
    assert_eq!(BPTreeNode::read_header(&pager, &id).unwrap().len, 2);
    <BPTreeLeaf as LeafOps>::remove_by_key(&mut pager, &id, 5).unwrap();
    assert_eq!(<BPTreeLeaf as LeafOps>::find_cell_by_key(&pager, &id, 5).unwrap(), Some(BPTreeCellId(0)));
    assert_eq!(BPTreeNode::read_header(&pager, &id).unwrap().len, 1);
}

#[test]
fn node_through_its_trait() {
    let mut pager = MemoryPager::new(PageSize(4000)).unwrap();
    let id = <BPTreeNode as NodeOps>::new(&mut pager, BPTreeNodeType::Branch, 4).unwrap();
    <BPTreeNode as NodeOps>::insert_cell(&mut pager, &id, &BPTreeCellId(0)).unwrap();
    <BPTreeNode as NodeOps>::write_cell(&mut pager, &id, &BPTreeCellId(0), &BPTreeNodeOffset(3), &[4, 5, 6]).unwrap();
    let v = <BPTreeNode as NodeOps>::read_cell(&pager, &id, &BPTreeCellId(0), &BPTreeNodeOffset(3), 3).unwrap();
    assert_eq!(v, vec![4, 5, 6]);
    <BPTreeNode as NodeOps>::remove_cell(&mut pager, &id, &BPTreeCellId(0)).unwrap();
    assert_eq!(BPTreeNode::read_header(&pager, &id).unwrap().len, 0);
}

#[test]
fn stream_page_type_is_found_after_id_and_nonce() {
    let bytes = [0u8, 0, 0, 0, 0, 0, 0, 0, 0, 0, 2, 0];
    assert_eq!(StreamPageHeader::seek_page_type(&bytes), Ok(StreamPageType::Overflow));
    assert_eq!(StreamPageHeader::seek_page_type(&bytes[..10]), Err(ReadError::UnexpectedEof));
    let mut pos = 0u64;
    assert_eq!(StreamPageHeader::seek_end(&mut pos), 11);
    assert_eq!(pos, 11);
}
