//! What a pager offers: pages of a fixed size, addressed by identifier, read
//! and written by byte ranges.
use vstd::prelude::*;

pub mod allocator;
pub mod bptree;
pub mod overflow;
pub mod version;
pub mod stream;

use crate::io::{splice, extract, u64_at, u32_at, u16_at, le64, le32, le16, lemma_le_roundtrip, read_u64, read_u32, read_u16, push_u64, push_u32, push_u16, read_bytes, write_bytes, zeros};
use crate::pager::id::{PageId, opt_page_id_raw, opt_page_id_of_raw, opt_page_id_storable, opt_page_id_to_raw, opt_page_id_from_raw, lemma_opt_page_id_roundtrip};
use crate::pager::error::{PagerError, PagerResult};
use crate::pager::page::page_type::{PageType, page_type_byte, page_type_of_byte, lemma_page_type_roundtrip};
use crate::pager::page::size::BlockSize;
use crate::pager::page::metadata::PageMetadata;
use crate::pager::versions::v1::page::header::{PageHeader, page_header_bytes, page_header_of_bytes, lemma_page_header_roundtrip, PAGE_HEADER_OFFSET, PAGE_HEADER_SIZE};

verus! {

/// Smallest page size a pager accepts: page 0 must hold the pager header.
pub const MIN_PAGER_PAGE_SIZE: u64 = 32;

/// Largest number of pages a pager holds.
pub const MAX_PAGE_COUNT: u64 = 0xffff_ffff;

/// Where, in page 0, the number of pages is stored.
pub const PAGE_COUNT_OFFSET: u64 = 16;

/// Where, in page 0, the head of the free list is stored.
pub const FREE_HEAD_OFFSET: u64 = 24;

/// The pages are well formed: page 0 exists, every page has the page size,
/// and the page size lies between the minimum and 2^32 - 1.
pub open spec fn pages_wf(pages: Seq<Seq<u8>>, page_size: nat) -> bool {
    &&& MIN_PAGER_PAGE_SIZE <= page_size <= u32::MAX
    &&& 1 <= pages.len() <= MAX_PAGE_COUNT
    &&& forall|i: int| 0 <= i < pages.len() ==> #[trigger] pages[i].len() == page_size
}

pub open spec fn pager_wf<P: Pager>(p: P) -> bool {
    pages_wf(p.pages_view(), p.page_size_view())
}

pub open spec fn page_exists(pages: Seq<Seq<u8>>, id: PageId) -> bool {
    id.0 < pages.len()
}

/// The type stored in the header of a page.
pub open spec fn stored_type(page: Seq<u8>) -> PageType {
    page_type_of_byte(page[10])
}

/// The head of the free list, as stored in page 0.
pub open spec fn stored_free_head(pages: Seq<Seq<u8>>) -> Option<PageId> {
    opt_page_id_of_raw(u64_at(pages[0], FREE_HEAD_OFFSET as int))
}

/// The answer to checking that page `id` holds type `t`.
pub open spec fn type_check(pages: Seq<Seq<u8>>, id: PageId, t: PageType) -> PagerResult<()> {
    if !page_exists(pages, id) {
        Err(PagerError::PageNotOpened(id))
    } else if stored_type(pages[id.0 as int]) == t {
        Ok(())
    } else {
        Err(PagerError::WrongPageType { expecting: t, got: stored_type(pages[id.0 as int]) })
    }
}

/// Whether an access of `len` bytes at `off` in page `id` may be made, and which error refuses it.
pub open spec fn access_check(pages: Seq<Seq<u8>>, page_size: nat, id: PageId, off: int, len: int) -> PagerResult<()> {
    if !page_exists(pages, id) {
        Err(PagerError::PageNotOpened(id))
    } else if off + len > page_size {
        Err(PagerError::PageOverflow)
    } else {
        Ok(())
    }
}

/// The pages after `data` is written at `off` in page `id`.
pub open spec fn write_page_bytes(pages: Seq<Seq<u8>>, id: PageId, off: int, data: Seq<u8>) -> Seq<Seq<u8>> {
    pages.update(id.0 as int, splice(pages[id.0 as int], off, data))
}

/// Writing `data` at `off` in page `id` took `old` to `new` and answered `r`.
pub open spec fn write_spec(
    old: Seq<Seq<u8>>,
    page_size: nat,
    new: Seq<Seq<u8>>,
    id: PageId,
    off: int,
    data: Seq<u8>,
    r: PagerResult<()>,
) -> bool {
    &&& r == access_check(old, page_size, id, off, data.len() as int)
    &&& new == (if r is Ok {
        write_page_bytes(old, id, off, data)
    } else {
        old
    })
}

/// The bytes read at `off` in page `id`, or the error that refuses the read.
pub open spec fn read_spec(pages: Seq<Seq<u8>>, page_size: nat, id: PageId, off: int, len: int) -> PagerResult<Seq<u8>> {
    match access_check(pages, page_size, id, off, len) {
        Ok(_) => Ok(extract(pages[id.0 as int], off, len)),
        Err(e) => Err(e),
    }
}

/// `page` is a page just made for `id` with type `t`: identifier, type and
/// empty parent in its header, any nonce, and a zeroed body.
pub open spec fn fresh_page(page: Seq<u8>, id: u64, t: PageType, page_size: nat) -> bool {
    &&& page.len() == page_size
    &&& extract(page, 0, 8) == le64(id)
    &&& page[10] == page_type_byte(t)
    &&& extract(page, 11, 8) == le64(0)
    &&& forall|i: int| 19 <= i < page_size ==> #[trigger] page[i] == 0u8
}

/// `new` is `old` with a page of type `t` appended and the page count of page 0 updated.
pub open spec fn page_appended(old: Seq<Seq<u8>>, new: Seq<Seq<u8>>, t: PageType, page_size: nat) -> bool {
    &&& new.len() == old.len() + 1
    &&& new[0] == splice(old[0], PAGE_COUNT_OFFSET as int, le64(new.len() as u64))
    &&& forall|i: int| 1 <= i < old.len() ==> #[trigger] new[i] == old[i]
    &&& fresh_page(new[old.len() as int], old.len() as u64, t, page_size)
}

pub trait Pager: Sized {
    /// Contents of the pages, by identifier; page 0 holds the pager header.
    spec fn pages_view(&self) -> Seq<Seq<u8>>;

    /// Size of every page.
    spec fn page_size_view(&self) -> nat;

    /// Create a new page.
    fn new_page(&mut self, page_type: PageType) -> (r: PagerResult<PageId>)
        requires
            pages_wf(old(self).pages_view(), old(self).page_size_view()),
        ensures
            pages_wf(final(self).pages_view(), final(self).page_size_view()),
            final(self).page_size_view() == old(self).page_size_view(),
            old(self).pages_view().len() < MAX_PAGE_COUNT ==> r == Ok::<PageId, PagerError>(PageId(old(self).pages_view().len() as u64)),
            old(self).pages_view().len() >= MAX_PAGE_COUNT ==> r == Err::<PageId, PagerError>(PagerError::PageFull(PageId(old(self).pages_view().len() as u64))),
            r is Ok ==> page_appended(old(self).pages_view(), final(self).pages_view(), page_type, old(self).page_size_view()),
            r is Err ==> final(self).pages_view() == old(self).pages_view(),
    ;

    /// Open the page: every page of this pager is held in memory, so this only checks it exists.
    fn open_page(&mut self, page_id: &PageId) -> (r: PagerResult<PageId>)
        requires
            pages_wf(old(self).pages_view(), old(self).page_size_view()),
        ensures
            final(self).pages_view() == old(self).pages_view(),
            final(self).page_size_view() == old(self).page_size_view(),
            r == (if page_exists(old(self).pages_view(), *page_id) {
                Ok::<PageId, PagerError>(*page_id)
            } else {
                Err(PagerError::PageNotOpened(*page_id))
            }),
    ;

    /// Close the page, without flushing it.
    fn close_page(&mut self, page_id: &PageId) -> (r: PagerResult<()>)
        requires
            pages_wf(old(self).pages_view(), old(self).page_size_view()),
        ensures
            final(self).pages_view() == old(self).pages_view(),
            final(self).page_size_view() == old(self).page_size_view(),
            r == (if page_exists(old(self).pages_view(), *page_id) {
                Ok::<(), PagerError>(())
            } else {
                Err(PagerError::PageNotOpened(*page_id))
            }),
    ;

    /// Flush the page.
    fn flush_page(&mut self, page_id: &PageId) -> (r: PagerResult<()>)
        requires
            pages_wf(old(self).pages_view(), old(self).page_size_view()),
        ensures
            final(self).pages_view() == old(self).pages_view(),
            final(self).page_size_view() == old(self).page_size_view(),
            r == (if page_exists(old(self).pages_view(), *page_id) {
                Ok::<(), PagerError>(())
            } else {
                Err(PagerError::PageNotOpened(*page_id))
            }),
    ;

    /// Flush the pages that have been modified.
    fn flush_modified_pages(&mut self) -> (r: PagerResult<()>)
        requires
            pages_wf(old(self).pages_view(), old(self).page_size_view()),
        ensures
            final(self).pages_view() == old(self).pages_view(),
            final(self).page_size_view() == old(self).page_size_view(),
            r is Ok,
    ;

    /// Check the type stored in the header of the page.
    fn assert_page_type(&self, page_id: &PageId, page_type: &PageType) -> (r: PagerResult<()>)
        requires
            pages_wf(self.pages_view(), self.page_size_view()),
        ensures
            r == type_check(self.pages_view(), *page_id, *page_type),
    ;

    /// Offset of the body of the page.
    fn get_body_ptr(&self, page_id: &PageId) -> (r: PagerResult<u64>)
        requires
            pages_wf(self.pages_view(), self.page_size_view()),
        ensures
            r == (if page_exists(self.pages_view(), *page_id) {
                Ok::<u64, PagerError>(PAGE_HEADER_SIZE)
            } else {
                Err(PagerError::PageNotOpened(*page_id))
            }),
    ;

    /// Write as much of `data` as fits in the page from `offset`, and return how much was written.
    fn write_to_page(&mut self, page_id: &PageId, data: &[u8], offset: u64) -> (r: PagerResult<usize>)
        requires
            pages_wf(old(self).pages_view(), old(self).page_size_view()),
        ensures
            pages_wf(final(self).pages_view(), final(self).page_size_view()),
            final(self).page_size_view() == old(self).page_size_view(),
            !page_exists(old(self).pages_view(), *page_id) ==> r == Err::<usize, PagerError>(PagerError::PageNotOpened(*page_id)),
            page_exists(old(self).pages_view(), *page_id) && offset > old(self).page_size_view()
                ==> r == Err::<usize, PagerError>(PagerError::PageOverflow),
            r is Err ==> final(self).pages_view() == old(self).pages_view(),
            page_exists(old(self).pages_view(), *page_id) && offset <= old(self).page_size_view() ==> {
                let n = if data@.len() <= old(self).page_size_view() - offset {
                    data@.len() as int
                } else {
                    old(self).page_size_view() - offset
                };
                &&& r == Ok::<usize, PagerError>(n as usize)
                &&& final(self).pages_view() == write_page_bytes(old(self).pages_view(), *page_id, offset as int, data@.subrange(0, n))
            },
    ;

    /// Write all of `data` in the page from `offset`.
    fn write_all_to_page(&mut self, page_id: &PageId, data: &[u8], offset: u64) -> (r: PagerResult<()>)
        requires
            pages_wf(old(self).pages_view(), old(self).page_size_view()),
        ensures
            pages_wf(final(self).pages_view(), final(self).page_size_view()),
            final(self).page_size_view() == old(self).page_size_view(),
            write_spec(old(self).pages_view(), old(self).page_size_view(), final(self).pages_view(), *page_id, offset as int, data@, r),
    ;

    /// Read `len` bytes of the page from `offset`.
    fn read_from_page(&self, page_id: &PageId, offset: u64, len: usize) -> (r: PagerResult<Vec<u8>>)
        requires
            pages_wf(self.pages_view(), self.page_size_view()),
        ensures
            match r {
                Ok(v) => read_spec(self.pages_view(), self.page_size_view(), *page_id, offset as int, len as int) == Ok::<Seq<u8>, PagerError>(v@),
                Err(e) => read_spec(self.pages_view(), self.page_size_view(), *page_id, offset as int, len as int) == Err::<Seq<u8>, PagerError>(e),
            },
    ;

    /// Store another type in the header of the page.
    fn change_page_type(&mut self, page_id: &PageId, page_type: PageType) -> (r: PagerResult<()>)
        requires
            pages_wf(old(self).pages_view(), old(self).page_size_view()),
        ensures
            pages_wf(final(self).pages_view(), final(self).page_size_view()),
            final(self).page_size_view() == old(self).page_size_view(),
            write_spec(old(self).pages_view(), old(self).page_size_view(), final(self).pages_view(), *page_id, 10, seq![page_type_byte(page_type)], r),
    ;

    /// Identifier, nonce, type and parent stored in the header of the page.
    fn get_page_metadata(&self, page_id: &PageId) -> (r: PagerResult<PageMetadata>)
        requires
            pages_wf(self.pages_view(), self.page_size_view()),
        ensures
            r == (if page_exists(self.pages_view(), *page_id) {
                Ok::<PageMetadata, PagerError>(PageMetadata::of_header(page_header_of_bytes(self.pages_view()[page_id.0 as int])))
            } else {
                Err(PagerError::PageNotOpened(*page_id))
            }),
    ;

    /// Number of pages, the pager's own page included.
    fn page_count(&self) -> (r: u64)
        requires
            pages_wf(self.pages_view(), self.page_size_view()),
        ensures
            r == self.pages_view().len(),
    ;

    fn get_page_size(&self) -> (r: u64)
        requires
            pages_wf(self.pages_view(), self.page_size_view()),
        ensures
            r == self.page_size_view(),
    ;

    /// Room for content in the page: the page size minus its header.
    fn get_page_capacity(&self, page_id: &PageId) -> (r: PagerResult<BlockSize>)
        requires
            pages_wf(self.pages_view(), self.page_size_view()),
        ensures
            r == (if page_exists(self.pages_view(), *page_id) {
                Ok::<BlockSize, PagerError>(BlockSize((self.page_size_view() - PAGE_HEADER_SIZE) as u64))
            } else {
                Err(PagerError::PageNotOpened(*page_id))
            }),
    ;

    /// Head of the list of free pages.
    fn get_freelist_head(&self) -> (r: Option<PageId>)
        requires
            pages_wf(self.pages_view(), self.page_size_view()),
        ensures
            r == stored_free_head(self.pages_view()),
    ;

    fn set_freelist_head(&mut self, new_head: Option<PageId>)
        requires
            pages_wf(old(self).pages_view(), old(self).page_size_view()),
        ensures
            pages_wf(final(self).pages_view(), final(self).page_size_view()),
            final(self).page_size_view() == old(self).page_size_view(),
            final(self).pages_view() == write_page_bytes(
                old(self).pages_view(),
                PageId(0),
                FREE_HEAD_OFFSET as int,
                le64(opt_page_id_raw(new_head)),
            ),
    ;
}

} // verus!
