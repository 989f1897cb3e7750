use brouas::pager::bptree::header::BPTreeNodeHeader;
use brouas::pager::bptree::node_type::BPTreeNodeType;
use brouas::pager::id::PageId;
use brouas::pager::memory::MemoryPager;
use brouas::pager::page::nonce::PageNonce;
use brouas::pager::page::page_type::PageType;
use brouas::pager::page::size::PageSize;
use brouas::pager::traits::Pager;
use brouas::pager::versions::v1::page::header::PageHeader as V1PageHeader;
use brouas::paging::bptree::leaf::BPTreeLeafCellHeader;
use brouas::pager::page::header::PageHeader as StoredPageHeader;

#[test]
fn v1_page_header_roundtrip() {
    let h = V1PageHeader { id: PageId(7), nonce: PageNonce(0xbeef), page_type: PageType::Raw, parent_id: Some(PageId(3)) };
    let bytes = h.to_bytes();
    assert_eq!(bytes.len(), 19);
    assert_eq!(V1PageHeader::from_bytes(&bytes), h);
}

#[test]
fn v1_page_header_stored_in_page() {
    let mut pager = MemoryPager::new(PageSize(64)).unwrap();
    let id = pager.new_page(PageType::Raw).unwrap();
    let mut h = V1PageHeader::get(&id, &pager).unwrap();
    assert_eq!(h.id, id);
    assert_eq!(h.page_type, PageType::Raw);
    assert_eq!(h.parent_id, None);
    h.parent_id = Some(PageId(5));
    h.set(&mut pager).unwrap();
    assert_eq!(V1PageHeader::get(&id, &pager).unwrap(), h);
    assert!(V1PageHeader::get(&PageId(9), &pager).is_err());
}

#[test]
fn node_header_roundtrip() {
    let h = BPTreeNodeHeader::new(BPTreeNodeType::Leaf, 8);
    assert_eq!(h.len, 0);
    let bytes = h.to_bytes();
    assert_eq!(bytes, vec![1, 0, 8]);
    assert_eq!(BPTreeNodeHeader::from_bytes(&bytes), h);
    let b = BPTreeNodeHeader::new(BPTreeNodeType::Branch, 4);
    assert_eq!(b.to_bytes(), vec![0, 0, 4]);
}

#[test]
fn leaf_cell_header_roundtrip() {
    let h = BPTreeLeafCellHeader { index: 42, size: 1000, in_page_size: 200, overflow: Some(PageId(11)) };
    let bytes = h.to_bytes();
    assert_eq!(bytes.len(), 32);
    assert_eq!(BPTreeLeafCellHeader::from_bytes(&bytes), h);
    assert_eq!(BPTreeLeafCellHeader::size_of(), 32);
}

#[test]
fn stored_page_header_is_88_bytes() {
    assert_eq!(StoredPageHeader::size_of(), 88);
    let h = StoredPageHeader::new(PageId(4));
    assert_eq!(h.id, PageId(4));
    assert_eq!(h.body_ptr.0, 88);
    assert_eq!(h.page_type, PageType::Unitialised);
    assert_eq!(h.parent_id, None);
    let bytes = h.to_bytes();
    assert_eq!(bytes.len(), 23);
    assert_eq!(&bytes[10..14], &[88, 0, 0, 0]);
    assert_eq!(StoredPageHeader::from_bytes(&bytes), h);
}
