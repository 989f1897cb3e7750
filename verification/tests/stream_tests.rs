use brouas::pager::id::PageId;
use brouas::pager::stream::DataBuffer;
use brouas::pager::traits::stream::PagerStream;
use brouas::paging::error::{Error, IoError};

#[test]
fn data_buffer_pages_read_back() {
    let mut buf = DataBuffer::new();
    buf.write_page(&PageId(2), &[1, 2, 3, 4]).unwrap();
    assert_eq!(buf.len(), 12);
    let mut page = vec![0u8; 4];
    buf.read_page(&PageId(2), &mut page).unwrap();
    assert_eq!(page, vec![1, 2, 3, 4]);
    let mut first = vec![9u8; 4];
    buf.read_page(&PageId(0), &mut first).unwrap();
    assert_eq!(first, vec![0, 0, 0, 0]);
    let mut missing = vec![0u8; 4];
    assert_eq!(buf.read_page(&PageId(3), &mut missing), Err(Error::IoError(IoError::UnexpectedEof)));
}

#[test]
fn data_buffer_version_is_first() {
    let mut buf = DataBuffer::new();
    assert_eq!(buf.read_version(), Err(Error::IoError(IoError::UnexpectedEof)));
    buf.write_page(&PageId(0), &7u64.to_le_bytes()).unwrap();
    assert_eq!(buf.read_version(), Ok(7));
}
