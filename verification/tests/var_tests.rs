use brouas::pager::error::PagerError;
use brouas::pager::id::PageId;
use brouas::pager::memory::MemoryPager;
use brouas::pager::page::size::BlockSize;
use brouas::pager::page::size::PageSize;
use brouas::pager::page::offset::PageOffset;
use brouas::pager::page::page_type::PageType;
use brouas::pager::traits::Pager;
use brouas::pager::types::var::Var;
use rand::Rng;

fn random_data(size: usize) -> Vec<u8> {
    let mut rng = rand::thread_rng();
    (0..size).map(|_| rng.gen::<u8>()).collect()
}

fn pager_fixture(page_size: u64) -> MemoryPager {
    MemoryPager::new(PageSize(page_size)).unwrap()
}

#[test]
fn test_var() {
    let data = random_data(10000);

    let mut pager = pager_fixture(4000);
    let pg_id = pager.new_page(PageType::Raw).unwrap();

    let base = PageOffset(0);
    let capacity = pager.get_page_capacity(&pg_id).unwrap();

    {
        let mut var = Var::new(pg_id, base, capacity);
        var.set(&data);
        var.flush(&mut pager).unwrap();
    }

    {
        let var = Var::load(pg_id, base, &pager).unwrap();
        let stored_data = var.get();
        assert_eq!(data, stored_data);
    }
}

#[test]
fn var_flush_on_missing_page_fails() {
    let mut pager = pager_fixture(256);
    let mut var = Var::new(PageId(7), PageOffset(0), BlockSize(100));
    var.set(&[1, 2, 3]);
    assert_eq!(var.flush(&mut pager), Err(PagerError::PageNotOpened(PageId(7))));
}

#[test]
fn var_small_value_stays_in_page() {
    let mut pager = pager_fixture(256);
    let pg_id = pager.new_page(PageType::Raw).unwrap();
    let capacity = pager.get_page_capacity(&pg_id).unwrap();
    let mut var = Var::new(pg_id, PageOffset(0), capacity);
    var.set(&[5; 40]);
    var.flush(&mut pager).unwrap();
    assert_eq!(pager.page_count(), 2);
    let loaded = Var::load(pg_id, PageOffset(0), &pager).unwrap();
    assert_eq!(loaded.get(), vec![5; 40]);
}
