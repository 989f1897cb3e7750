use brouas::pager::bptree::node_type::BPTreeNodeType;
use brouas::pager::memory::MemoryPager;
use brouas::pager::page::size::PageSize;
use brouas::paging::bptree::{BPTreeCellId, BPTreeNode, BPTreeNodeOffset};
use rand::Rng;

fn random_raw_data(size: usize) -> Vec<u8> {
    let mut rng = rand::thread_rng();
    (0..size).map(|_| rng.gen::<u8>()).collect()
}

fn pager_fixture(page_size: u64) -> MemoryPager {
    MemoryPager::new(PageSize(page_size)).unwrap()
}

#[test]
fn test_pager_bptree() {
    let mut pager = pager_fixture(4000);

    let page_id = BPTreeNode::new(&mut pager, BPTreeNodeType::Leaf, 8).unwrap();

    let cell_1 = random_raw_data(100);
    let cell_2 = random_raw_data(100);

    let c0 = BPTreeCellId(0);
    let c1 = BPTreeCellId(1);
    let o0 = BPTreeNodeOffset(0);

    BPTreeNode::insert_cell(&mut pager, &page_id, &c0).unwrap();
    BPTreeNode::write_cell(&mut pager, &page_id, &c0, &o0, &cell_1).unwrap();
    let stored = BPTreeNode::read_cell(&pager, &page_id, &c0, &o0, 100).unwrap();

    assert_eq!(stored, cell_1);

    BPTreeNode::insert_cell(&mut pager, &page_id, &c0).unwrap();
    BPTreeNode::write_cell(&mut pager, &page_id, &c0, &o0, &cell_2).unwrap();
    let stored = BPTreeNode::read_cell(&pager, &page_id, &c0, &o0, 100).unwrap();

    assert_eq!(stored, cell_2);

    let stored = BPTreeNode::read_cell(&pager, &page_id, &c1, &o0, 100).unwrap();

    assert_eq!(stored, cell_1);
    assert_eq!(BPTreeNode::read_header(&pager, &page_id).unwrap().len, 2);

    BPTreeNode::remove_cell(&mut pager, &page_id, &c0).unwrap();
    let stored = BPTreeNode::read_cell(&pager, &page_id, &c0, &o0, 100).unwrap();

    assert_eq!(stored, cell_1);
    assert_eq!(BPTreeNode::read_header(&pager, &page_id).unwrap().len, 1);
}
