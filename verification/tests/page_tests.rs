use brouas::paging::error::{BufferError, Error, IoError};
use brouas::pager::page::{ReadPageSection, WritePageSection};
use brouas::paging::page::{Page, PageSectionType};
use rand::Rng;

fn random_data(size: usize) -> Vec<u8> {
    let mut rng = rand::thread_rng();
    (0..size).map(|_| rng.gen::<u8>()).collect()
}

#[test]
fn page_test_page() {
    let area: Vec<u8> = vec![0; 1000];
    let data_size: usize = 100;

    let data = random_data(data_size);

    let mut page = Page::new(1, 1, area);
    page.write_section(PageSectionType::Body, 0, &data).unwrap();

    let stored_data = page.read_section(PageSectionType::Body, 0, data_size).unwrap();

    assert_eq!(data, stored_data);
}

#[test]
fn page_header_fields_read_back() {
    let mut page = Page::new(7, 0x2, vec![0; 64]);
    assert_eq!(page.get_id(), 7);
    assert_eq!(page.get_type(), 0x2);
    assert_eq!(page.get_parent(), 0);
    page.set_parent(0x0102_0304_0506_0708);
    assert_eq!(page.get_parent(), 0x0102_0304_0506_0708);
    assert_eq!(page.get_id(), 7);
    assert_eq!(page.get_type(), 0x2);
    assert_eq!(page.get_size(), 64);
}

#[test]
fn page_try_new_refuses_short_memory() {
    assert!(matches!(Page::try_new(1, 1, vec![0; 8]), Err(Error::BufferError(BufferError::TooSmall))));
    let small = Page::try_new(7, 3, vec![0xaa; 10]).unwrap();
    assert_eq!(small.get_id(), 7);
    assert_eq!(small.get_type(), 3);
    assert_eq!(small.read_section(PageSectionType::All, 9, 1).unwrap(), vec![0xaa]);
}

#[test]
fn page_section_write_past_end_is_partial() {
    let mut page = Page::new(1, 1, vec![0; 20]);
    let r = page.write_section(PageSectionType::Body, 0, &[9, 8, 7]);
    assert!(matches!(r, Err(Error::IoError(IoError::WriteZero))));
    assert_eq!(page.read_section(PageSectionType::All, 18, 2).unwrap(), vec![9, 8]);
    assert!(matches!(page.read_section(PageSectionType::Body, 1, 2), Err(Error::IoError(IoError::UnexpectedEof))));
}

#[test]
fn page_upsertion_is_acknowledged() {
    let mut page = Page::new(1, 1, vec![0; 32]);
    assert!(page.is_upserted());
    page.ack_upsertion();
    assert!(!page.is_upserted());
    page.set_type(3);
    assert!(page.is_upserted());
}

#[test]
fn test_page() {
    let area: Vec<u8> = vec![0; 1000];
    let data_size: usize = 100;

    let data = random_data(data_size);

    let mut page = Page::new(1, 1, area);
    assert!(page.write_body(0, &data));

    let stored_data = page.borrow_body()[..data_size].to_vec();

    assert_eq!(data, stored_data);
}
