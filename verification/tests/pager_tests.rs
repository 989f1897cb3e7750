use brouas::paging::error::{BufferError, Error};
use brouas::paging::page::PageSectionType;
use brouas::paging::pager::traits::{PageStorage, Pager as _};
use brouas::paging::pager::Pager;
use rand::Rng;

fn random_data(size: usize) -> Vec<u8> {
    let mut rng = rand::thread_rng();
    (0..size).map(|_| rng.gen::<u8>()).collect()
}

struct InMemory {
    entries: Vec<(u64, Vec<u8>)>,
}

impl InMemory {
    fn new() -> Self {
        InMemory { entries: Vec::new() }
    }
}

impl PageStorage for InMemory {
    fn store(&mut self, id: u64, page: &[u8]) -> Result<(), Error> {
        self.entries.push((id, page.to_vec()));
        Ok(())
    }

    fn fetch(&self, id: u64, data: &mut Vec<u8>) -> Result<(), Error> {
        match self.entries.iter().rev().find(|(k, _)| *k == id) {
            Some((_, v)) => {
                *data = v.clone();
                Ok(())
            }
            None => Err(Error::BufferError(BufferError::UnknownPage)),
        }
    }
}

#[test]
fn test_pager() {
    let mut pager = Pager::new(InMemory::new(), 10);

    let data_size: usize = 1000;
    let random = random_data(data_size);

    let pid = pager.new_page(0x10).unwrap();
    pager.write_page(&pid, PageSectionType::Body, 0, &random).unwrap();

    let page = pager.borrow_page(&pid).unwrap();
    let stored = page.read_section(PageSectionType::Body, 0, data_size).unwrap();

    assert_eq!(random, stored);
}

#[test]
fn pager_pool_fills_up() {
    let mut pager = Pager::new(InMemory::new(), 2);
    assert_eq!(pager.new_page(1).unwrap(), 1);
    assert_eq!(pager.new_page(1).unwrap(), 2);
    assert!(matches!(pager.new_page(1), Err(Error::BufferError(BufferError::Full))));
    pager.drop_page(&1).unwrap();
    assert_eq!(pager.new_page(1).unwrap(), 3);
    assert_eq!(pager.iter(), vec![2, 3]);
    assert!(matches!(pager.borrow_page(&1), Err(Error::BufferError(BufferError::UnknownPage))));
    assert!(matches!(pager.drop_page(&1), Err(Error::BufferError(BufferError::UnknownPage))));
}

#[test]
fn pager_new_page_holds_id_and_type() {
    let mut pager = Pager::new(InMemory::new(), 4);
    let pid = pager.new_page(0x3).unwrap();
    let page = pager.borrow_page(&pid).unwrap();
    assert_eq!(page.get_id(), pid);
    assert_eq!(page.get_type(), 0x3);
    assert_eq!(page.get_size(), 16_000);
    assert_eq!(pager.iter_upserted_pages(), vec![pid]);
}
