use brouas::paging::error::{BufferError, Error, IoError};
use brouas::paging::overflow::{SeekFrom, VarSection, VarSource, VarStream};
use brouas::paging::page::PageSectionType;
use brouas::paging::pager::traits::{PageStorage, Pager as _};
use brouas::paging::pager::Pager;

struct NoStore;

impl PageStorage for NoStore {
    fn store(&mut self, _id: u64, _page: &[u8]) -> Result<(), Error> {
        Ok(())
    }

    fn fetch(&self, _id: u64, _data: &mut Vec<u8>) -> Result<(), Error> {
        Err(Error::BufferError(BufferError::UnknownPage))
    }
}

fn setup() -> (Pager<NoStore>, VarSource) {
    let mut pager = Pager::new(NoStore, 10);
    let pid = pager.new_page(1).unwrap();
    let src = VarSource { page: pid, start: 18, end: 118 };
    (pager, src)
}

#[test]
fn stream_write_lands_in_source_body() {
    let (mut pager, src) = setup();
    let data: Vec<u8> = (0..50u8).collect();
    let mut stream = VarStream::new(src);
    assert_eq!(stream.write(&mut pager, &data).unwrap(), 50);

    let page = pager.borrow_page(&src.page).unwrap();
    let stored = page.read_section(PageSectionType::All, 36, 50).unwrap();
    assert_eq!(stored, data);

    assert_eq!(src.get_size(&pager), 50);
    assert_eq!(src.get_in_size(&pager), 49);
    // An overflow page was made and recorded as next of the source.
    assert_eq!(src.get_next(&pager), Some(2));
    assert_eq!(stream.var_cursor, 50);
    assert_eq!(stream.section_cursor, 0);
    assert_eq!(stream.iterator.current, VarSection::Source(src));
}

#[test]
fn stream_dest_cursor() {
    let (mut pager, src) = setup();
    let data: Vec<u8> = vec![7; 50];
    let mut stream = VarStream::new(src);
    stream.write(&mut pager, &data).unwrap();

    assert_eq!(stream.get_dest_cursor(&pager, SeekFrom::Start(20)).unwrap(), 20);
    assert_eq!(stream.get_dest_cursor(&pager, SeekFrom::End(10)).unwrap(), 40);
    assert!(matches!(stream.get_dest_cursor(&pager, SeekFrom::Start(60)), Err(Error::IoError(IoError::UnexpectedEof))));
    // A negative step from the current position is subtracted as an unsigned
    // number, so it moves forward: 50 + 5 lies past the size.
    assert!(matches!(stream.get_dest_cursor(&pager, SeekFrom::Current(-5)), Err(Error::IoError(IoError::UnexpectedEof))));
    assert_eq!(stream.get_dest_cursor(&pager, SeekFrom::Current(0)).unwrap(), 50);
}

#[test]
fn stream_seek_inside_source() {
    let (mut pager, src) = setup();
    let data: Vec<u8> = vec![1; 50];
    let mut stream = VarStream::new(src);
    stream.write(&mut pager, &data).unwrap();

    let mut fresh = VarStream::new(src);
    assert_eq!(fresh.seek(&pager, SeekFrom::Start(30)).unwrap(), 30);
    assert_eq!(fresh.var_cursor, 30);
    assert_eq!(fresh.section_cursor, 30);

    assert_eq!(fresh.write(&mut pager, &[9, 9, 9]).unwrap(), 3);
    let page = pager.borrow_page(&src.page).unwrap();
    assert_eq!(page.read_section(PageSectionType::All, 36 + 30, 3).unwrap(), vec![9, 9, 9]);
    assert_eq!(src.get_size(&pager), 50);
}

#[test]
fn stream_section_fields() {
    let (mut pager, src) = setup();
    src.set_size(&mut pager, 1234);
    src.set_in_size(&mut pager, 17);
    src.set_next(&mut pager, 9);
    assert_eq!(src.get_size(&pager), 1234);
    assert_eq!(src.get_in_size(&pager), 17);
    assert_eq!(src.get_next(&pager), Some(9));
    src.push_in_size_cursor(&mut pager, 3);
    assert_eq!(src.get_in_size(&pager), 17);
    src.push_size_cursor(&mut pager, 5000);
    assert_eq!(src.get_size(&pager), 5000);
    src.set_next(&mut pager, 0);
    assert_eq!(src.get_next(&pager), None);
    assert_eq!(src.deref_body(&pager).len(), 82);
}

#[test]
fn source_body_write_keeps_fields() {
    let (mut pager, src) = setup();
    src.set_size(&mut pager, 77);
    src.set_in_size(&mut pager, 12);
    src.set_next(&mut pager, 5);
    src.deref_mut_body(&mut pager, 3, &[9, 8, 7]);
    let body = src.deref_body(&pager);
    assert_eq!(body.len(), 82);
    assert_eq!(&body[3..6], &[9, 8, 7]);
    assert_eq!(body[0], 0);
    assert_eq!(body[6], 0);
    assert_eq!(src.get_size(&pager), 77);
    assert_eq!(src.get_in_size(&pager), 12);
    assert_eq!(src.get_next(&pager), Some(5));
}
