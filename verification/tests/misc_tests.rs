use brouas::io::ReadError;
use brouas::pager::allocator::Allocator as StackAllocator;
use brouas::pager::bptree::cell_id::{BPTreeCellId, BPTreeCellIndexes};
use brouas::pager::bptree::cell_size::BPTreeCellSize;
use brouas::pager::bptree::node_offset::BPTreeNodeOffset;
use brouas::pager::btree::leaf::BPTreeLeafCellSize;
use brouas::pager::btree::{BPTreeNodeBodyOffset, BP_TREE_BODY_OFFSET};
use brouas::pager::btree_page::node_type::BPTreeNodeType as StreamNodeType;
use brouas::pager::btree_page::page_header::BPTreeHeader;
use brouas::pager::buffer::PagerBuffer;
use brouas::pager::header::{PageCount, PagerHeader as StreamPagerHeader, PagerVersion};
use brouas::pager::id::PageId;
use brouas::pager::memory::MemoryPager;
use brouas::pager::page::page_type::PageType;
use brouas::pager::page::size::PageSize;
use brouas::pager::page::offset::PageOffset;
use brouas::pager::page_header::PageHeader as StreamPageHeader;
use brouas::pager::page_id::PageId as StreamPageId;
use brouas::pager::page_nonce::PageNonce as StreamPageNonce;
use brouas::pager::page_type::PageType as StreamPageType;
use brouas::pager::storage::PagerStream;
use brouas::pager::traits::Pager;
use brouas::pager::versions::v1::allocator::Allocator as V1Allocator;
use brouas::pager::versions::v1::page::min_page_size;
use brouas::paging::page::Page;
use brouas::storage::impls::LocalBlockStorage;
use brouas::storage::Key;

#[test]
fn block_file_name_is_lowercase_hex() {
    assert_eq!(LocalBlockStorage::<10>::block_file_name(&[0xab, 0x01, 0xff]), "ab01ff");
    assert_eq!(LocalBlockStorage::<10>::block_file_name(&[]), "");
    let store = LocalBlockStorage::<10>::open(String::from("tests/blocks"));
    assert_eq!(store.directory, "tests/blocks");
}

#[test]
fn key_holds_the_bytes_of_its_name() {
    let k = Key::from_str("abc");
    assert_eq!(k.as_bytes(), b"abc");
}

#[test]
fn cell_indexes_run_from_zero() {
    let ids = BPTreeCellIndexes::new(3);
    assert_eq!(ids.iter().iter().map(|c| c.0).collect::<Vec<u8>>(), vec![0, 1, 2]);
    assert_eq!(BPTreeCellIndexes::new(0).iter().len(), 0);
    assert_eq!(BPTreeCellId(255).plus(1).0, 0);
    assert_eq!(BPTreeCellId(0).minus(1).0, 255);
}

#[test]
fn generic_cell_size_wraps_below_zero() {
    assert_eq!(BPTreeCellSize::from(4000, 43, 8).0, 494);
    assert_eq!(BPTreeCellSize::from(10, 43, 1).0, u64::MAX - 32);
    assert_eq!(BPTreeCellSize::from(4000, 43, 8).offset_of(BPTreeCellId(2)).0, 988);
    assert_eq!(BPTreeNodeOffset::new(5).to_page_offset(&19), 24);
    assert_eq!(BPTreeNodeOffset::new(5).add(BPTreeNodeOffset(6)).0, 11);
}

#[test]
fn leaf_cell_offsets() {
    let size = BPTreeLeafCellSize::from(4000, 8);
    assert_eq!(size.0, 497);
    assert_eq!(BPTreeLeafCellSize::from(10, 8).0, 0);
    assert_eq!(size.max_in_page_element_size(), 465);
    assert_eq!(BPTreeLeafCellSize(100).max_in_page_element_size(), 68);
    assert_eq!(BPTreeLeafCellSize(20).max_in_page_element_size(), 0);
    let off = size.offset_of(2);
    assert_eq!(off.0, 1013);
    assert_eq!(off.to_head().0, 1013);
    assert_eq!(off.to_body().0, 1045);
    assert_eq!(off.to_head().to_overflow_field(), 1205);
    assert_eq!(BPTreeNodeBodyOffset(BP_TREE_BODY_OFFSET).const_into(), 19);
}

#[test]
fn page_offset_in_stream() {
    assert_eq!(PagerStream::<()>::page_offset(PageId(3), PageSize(100), 40), 240);
    assert_eq!(PagerStream::<()>::page_offset(PageId(1), PageSize(100), 40), 40);
    assert_eq!(PagerStream::<()>::page_offset(PageId(0), PageSize(100), 40), u64::MAX - 59);
}

#[test]
fn stream_page_header_roundtrip() {
    let h = StreamPageHeader { id: StreamPageId(0x1122), nonce: StreamPageNonce(7), page_type: StreamPageType::Overflow };
    let mut buf = vec![0xee];
    assert_eq!(h.write_to_buffer(&mut buf), 11);
    assert_eq!(buf.len(), 12);
    let mut pos = 1usize;
    assert_eq!(StreamPageHeader::read_from_buffer(&buf, &mut pos), Ok(h));
    assert_eq!(pos, 12);
    let mut pos = 5usize;
    assert_eq!(StreamPageHeader::read_from_buffer(&buf, &mut pos), Err(ReadError::UnexpectedEof));
    assert_eq!(StreamPageHeader::raw_size_of(), 11);
}

#[test]
fn node_header_stream_roundtrip() {
    let h = BPTreeHeader { node_type: StreamNodeType::Leaf, len: 3, capacity: 8 };
    let mut buf = Vec::new();
    assert_eq!(h.write_to_buffer(&mut buf), 3);
    assert_eq!(buf, vec![1, 3, 8]);
    let mut pos = 0usize;
    assert_eq!(BPTreeHeader::read_from_buffer(&buf, &mut pos), Ok(h));
    let mut p = 0u64;
    assert_eq!(BPTreeHeader::seek(&mut p), 11);
    assert_eq!(p, 11);
}

#[test]
fn stream_pager_header_codec() {
    let h = StreamPagerHeader::new(PageSize(4096));
    assert_eq!(h.version, PagerVersion(1));
    assert_eq!(h.page_count, PageCount(1));
    assert_eq!(h.page_ptr, PageOffset(32));
    assert_eq!(StreamPagerHeader::size_of(), 32);
    assert_eq!(PagerVersion::size_of(), 8);
    let mut h2 = h;
    h2.free_head = Some(PageId(9));
    let bytes = h2.to_bytes();
    assert_eq!(bytes.len(), 36);
    assert_eq!(&bytes[24..28], &[32, 0, 0, 0]);
    assert_eq!(&bytes[28..36], &[9, 0, 0, 0, 0, 0, 0, 0]);
    assert_eq!(StreamPagerHeader::from_bytes(&bytes), h2);
    let mut c = PageCount(1);
    c.add_assign(2);
    assert_eq!(c.to_page_id(), PageId(3));
}

#[test]
fn min_page_size_is_header_size() {
    assert_eq!(min_page_size(), 19);
}

#[test]
fn stack_allocator_gives_back_freed_page() {
    let mut pager = MemoryPager::new(PageSize(128)).unwrap();
    let a = pager.new_page(PageType::Raw).unwrap();
    let b = pager.new_page(PageType::Raw).unwrap();
    assert_eq!(StackAllocator::allocate(&mut pager).unwrap(), None);
    StackAllocator::free(&mut pager, &a).unwrap();
    StackAllocator::free(&mut pager, &b).unwrap();
    assert_eq!(pager.get_freelist_head(), Some(b));
    assert_eq!(StackAllocator::allocate(&mut pager).unwrap(), Some(b));
    assert_eq!(pager.get_freelist_head(), Some(a));
    assert_eq!(StackAllocator::allocate(&mut pager).unwrap(), Some(a));
    assert_eq!(StackAllocator::allocate(&mut pager).unwrap(), None);
}

#[test]
fn v1_allocator_gives_back_freed_page() {
    let mut pager = MemoryPager::new(PageSize(128)).unwrap();
    let a = pager.new_page(PageType::Raw).unwrap();
    let b = pager.new_page(PageType::Raw).unwrap();
    assert_eq!(V1Allocator::allocate(&mut pager).unwrap(), None);
    V1Allocator::free(&mut pager, &a).unwrap();
    V1Allocator::free(&mut pager, &b).unwrap();
    assert_eq!(V1Allocator::allocate(&mut pager).unwrap(), Some(b));
    assert_eq!(V1Allocator::allocate(&mut pager).unwrap(), Some(a));
    assert_eq!(V1Allocator::allocate(&mut pager).unwrap(), None);
}

#[test]
fn pager_buffer_holds_pages_by_id() {
    let mut buffer = PagerBuffer::new();
    buffer.add(Page::new(4, 1, vec![0; 32]));
    assert_eq!(buffer.borrow_page(&PageId(4)).unwrap().get_id(), 4);
    assert!(buffer.borrow_page(&PageId(5)).is_none());
    buffer.borrow_mut_page(&PageId(4)).unwrap().set_type(9);
    assert_eq!(buffer.borrow_page(&PageId(4)).unwrap().get_type(), 9);
    buffer.drop_page(&PageId(4));
    assert!(buffer.borrow_page(&PageId(4)).is_none());
}

#[test]
fn memory_pager_flush_modified_pages_keeps_pages() {
    let mut pager = MemoryPager::new(PageSize(128)).unwrap();
    let a = pager.new_page(PageType::Raw).unwrap();
    assert_eq!(pager.flush_modified_pages(), Ok(()));
    assert!(pager.flush_page(&a).is_ok());
}
