//! A pager keeping all its pages in memory.
use vstd::prelude::*;
use vstd::bytes::u64_to_le_bytes;
use vstd::slice::slice_subrange;
use crate::io::{splice, extract, le64, lemma_le_roundtrip, read_u64, read_bytes, write_bytes, zeros};
use crate::pager::id::{PageId, opt_page_id_raw, opt_page_id_to_raw, opt_page_id_from_raw};
use crate::pager::page::page_type::{PageType, page_type_byte, page_type_of_byte};
use crate::pager::page::size::{PageSize, BlockSize};
use crate::pager::page::nonce::PageNonce;
use crate::pager::page::metadata::PageMetadata;
use crate::pager::error::{PagerError, PagerResult};
use crate::pager::traits::{
    type_check,
    Pager, pages_wf, page_exists, stored_type, stored_free_head, access_check, write_page_bytes,
    write_spec, read_spec, fresh_page, page_appended, MIN_PAGER_PAGE_SIZE, MAX_PAGE_COUNT,
    PAGE_COUNT_OFFSET, FREE_HEAD_OFFSET,
};
use crate::pager::versions::v1::page::header::{PageHeader, page_header_bytes, page_header_of_bytes, PAGE_HEADER_SIZE};
use crate::pager::versions::v1::pager::header::{PagerHeader, pager_header_bytes};

verus! {

/// A pager whose pages all live in memory; page 0 holds the pager header.
pub struct MemoryPager {
    page_size: u64,
    pages: Vec<Vec<u8>>,
}

impl MemoryPager {
    /// A pager with pages of `page_size` bytes, holding only its header page;
    /// `None` when the size is below 32 bytes or above 2^32 - 1.
    pub fn new(page_size: PageSize) -> (r: Option<Self>)
        ensures
            r is Some <==> MIN_PAGER_PAGE_SIZE <= page_size.0 <= u32::MAX,
            r matches Some(p) ==> {
                &&& pages_wf(p.pages_view(), p.page_size_view())
                &&& p.page_size_view() == page_size.0
                &&& p.pages_view().len() == 1
                &&& extract(p.pages_view()[0], 0, 32) == pager_header_bytes(PagerHeader { version: 1, page_size: page_size.0, page_count: 1, free_head: None })
            },
    {
        if page_size.0 < MIN_PAGER_PAGE_SIZE || page_size.0 > 0xffff_ffff {
            return None;
        }
        let header = PagerHeader::new(page_size);
        let mut page0 = header.to_bytes();
        proof { lemma_le_roundtrip(); }
        let rest = zeros((page_size.0 - 32) as usize);
        page0.extend_from_slice(rest.as_slice());
        let mut pages: Vec<Vec<u8>> = Vec::new();
        pages.push(page0);
        let p = MemoryPager { page_size: page_size.0, pages };
        assert(extract(p.pages_view()[0], 0, 32) =~= pager_header_bytes(header));
        Some(p)
    }
}

impl MemoryPager {
    proof fn lemma_view(&self)
        ensures
            self.pages_view().len() == self.pages@.len(),
            forall|i: int| 0 <= i < self.pages@.len() ==> #[trigger] self.pages@[i]@ == self.pages_view()[i],
    {
    }
}

impl Pager for MemoryPager {
    closed spec fn pages_view(&self) -> Seq<Seq<u8>> {
        self.pages@.map_values(|p: Vec<u8>| p@)
    }

    closed spec fn page_size_view(&self) -> nat {
        self.page_size as nat
    }

    fn new_page(&mut self, page_type: PageType) -> (r: PagerResult<PageId>) {
        proof { self.lemma_view(); }
        let n = self.pages.len();
        if n as u64 >= MAX_PAGE_COUNT {
            return Err(PagerError::PageFull(PageId(n as u64)));
        }
        let id = PageId(n as u64);
        let header = PageHeader { id, nonce: PageNonce::new(), page_type, parent_id: None };
        let mut page = header.to_bytes();
        proof { lemma_le_roundtrip(); }
        let body = zeros((self.page_size - PAGE_HEADER_SIZE) as usize);
        page.extend_from_slice(body.as_slice());
        let ghost new_page = page@;
        assert(extract(new_page, 0, 8) =~= le64(n as u64));
        assert(extract(new_page, 11, 8) =~= le64(0));
        self.pages.push(page);
        let count = u64_to_le_bytes((n + 1) as u64);
        assert(self.pages@[0]@ == old(self).pages@[0]@);
        write_bytes(&mut self.pages[0], PAGE_COUNT_OFFSET as usize, count.as_slice());
        assert(self.pages_view() =~= old(self).pages_view().update(0, splice(old(self).pages_view()[0], PAGE_COUNT_OFFSET as int, le64((n + 1) as u64))).push(new_page));
        Ok(id)
    }

    fn open_page(&mut self, page_id: &PageId) -> (r: PagerResult<PageId>) {
        proof { self.lemma_view(); }
        if page_id.0 < self.pages.len() as u64 {
            Ok(*page_id)
        } else {
            Err(PagerError::PageNotOpened(*page_id))
        }
    }

    fn close_page(&mut self, page_id: &PageId) -> (r: PagerResult<()>) {
        proof { self.lemma_view(); }
        if page_id.0 < self.pages.len() as u64 {
            Ok(())
        } else {
            Err(PagerError::PageNotOpened(*page_id))
        }
    }

    fn flush_modified_pages(&mut self) -> (r: PagerResult<()>) {
        Ok(())
    }

    fn flush_page(&mut self, page_id: &PageId) -> (r: PagerResult<()>) {
        proof { self.lemma_view(); }
        if page_id.0 < self.pages.len() as u64 {
            Ok(())
        } else {
            Err(PagerError::PageNotOpened(*page_id))
        }
    }

    fn assert_page_type(&self, page_id: &PageId, page_type: &PageType) -> (r: PagerResult<()>) {
        proof { self.lemma_view(); }
        if page_id.0 >= self.pages.len() as u64 {
            return Err(PagerError::PageNotOpened(*page_id));
        }
        let i = page_id.0 as usize;
        assert(self.pages@[i as int]@.len() == self.page_size);
        let got = PageType::from_byte(self.pages[i][10]);
        if got == *page_type {
            Ok(())
        } else {
            Err(PagerError::WrongPageType { expecting: *page_type, got })
        }
    }

    fn get_body_ptr(&self, page_id: &PageId) -> (r: PagerResult<u64>) {
        proof { self.lemma_view(); }
        if page_id.0 < self.pages.len() as u64 {
            Ok(PAGE_HEADER_SIZE)
        } else {
            Err(PagerError::PageNotOpened(*page_id))
        }
    }

    fn write_to_page(&mut self, page_id: &PageId, data: &[u8], offset: u64) -> (r: PagerResult<usize>) {
        proof { self.lemma_view(); }
        if page_id.0 >= self.pages.len() as u64 {
            return Err(PagerError::PageNotOpened(*page_id));
        }
        if offset > self.page_size {
            return Err(PagerError::PageOverflow);
        }
        let room = self.page_size - offset;
        let n: usize = if (data.len() as u64) <= room { data.len() } else { room as usize };
        let part = slice_subrange(data, 0, n);
        let i = page_id.0 as usize;
        assert(self.pages@[i as int]@.len() == self.page_size);
        write_bytes(&mut self.pages[i], offset as usize, part);
        assert(self.pages_view() =~= write_page_bytes(old(self).pages_view(), *page_id, offset as int, data@.subrange(0, n as int)));
        Ok(n)
    }

    fn write_all_to_page(&mut self, page_id: &PageId, data: &[u8], offset: u64) -> (r: PagerResult<()>) {
        proof { self.lemma_view(); }
        if page_id.0 >= self.pages.len() as u64 {
            return Err(PagerError::PageNotOpened(*page_id));
        }
        if offset > self.page_size || data.len() as u64 > self.page_size - offset {
            return Err(PagerError::PageOverflow);
        }
        let i = page_id.0 as usize;
        assert(self.pages@[i as int]@.len() == self.page_size);
        write_bytes(&mut self.pages[i], offset as usize, data);
        assert(self.pages_view() =~= write_page_bytes(old(self).pages_view(), *page_id, offset as int, data@));
        Ok(())
    }

    fn read_from_page(&self, page_id: &PageId, offset: u64, len: usize) -> (r: PagerResult<Vec<u8>>) {
        proof { self.lemma_view(); }
        if page_id.0 >= self.pages.len() as u64 {
            return Err(PagerError::PageNotOpened(*page_id));
        }
        if offset > self.page_size || len as u64 > self.page_size - offset {
            return Err(PagerError::PageOverflow);
        }
        let i = page_id.0 as usize;
        assert(self.pages@[i as int]@.len() == self.page_size);
        Ok(read_bytes(self.pages[i].as_slice(), offset as usize, len))
    }

    fn change_page_type(&mut self, page_id: &PageId, page_type: PageType) -> (r: PagerResult<()>) {
        let mut b: Vec<u8> = Vec::new();
        b.push(page_type.to_byte());
        assert(b@ =~= seq![page_type_byte(page_type)]);
        self.write_all_to_page(page_id, b.as_slice(), 10)
    }

    fn get_page_metadata(&self, page_id: &PageId) -> (r: PagerResult<PageMetadata>) {
        proof { self.lemma_view(); }
        if page_id.0 >= self.pages.len() as u64 {
            return Err(PagerError::PageNotOpened(*page_id));
        }
        let i = page_id.0 as usize;
        assert(self.pages@[i as int]@.len() == self.page_size);
        let header = PageHeader::from_bytes(self.pages[i].as_slice());
        Ok(PageMetadata::from_header(header))
    }

    fn page_count(&self) -> (r: u64) {
        proof { self.lemma_view(); }
        self.pages.len() as u64
    }

    fn get_page_size(&self) -> (r: u64) {
        self.page_size
    }

    fn get_page_capacity(&self, page_id: &PageId) -> (r: PagerResult<BlockSize>) {
        proof { self.lemma_view(); }
        if page_id.0 < self.pages.len() as u64 {
            Ok(BlockSize(self.page_size - PAGE_HEADER_SIZE))
        } else {
            Err(PagerError::PageNotOpened(*page_id))
        }
    }

    fn get_freelist_head(&self) -> (r: Option<PageId>) {
        proof { self.lemma_view(); }
        assert(self.pages@[0]@.len() == self.page_size);
        opt_page_id_from_raw(read_u64(self.pages[0].as_slice(), FREE_HEAD_OFFSET as usize))
    }

    fn set_freelist_head(&mut self, new_head: Option<PageId>) {
        proof { self.lemma_view(); }
        let bytes = u64_to_le_bytes(opt_page_id_to_raw(new_head));
        assert(self.pages@[0]@.len() == self.page_size);
        write_bytes(&mut self.pages[0], FREE_HEAD_OFFSET as usize, bytes.as_slice());
        assert(self.pages_view() =~= write_page_bytes(old(self).pages_view(), PageId(0), FREE_HEAD_OFFSET as int, le64(opt_page_id_raw(new_head))));
    }
}

} // verus!
