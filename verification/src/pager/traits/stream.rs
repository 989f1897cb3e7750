//! What a stream that holds a pager offers: whole pages written and read by
//! identifier, page `id` lying `id` page sizes from the start, and the
//! version of the layout it holds.
use vstd::prelude::*;
use crate::pager::id::PageId;
use crate::paging::error::Error;

verus! {

pub trait PagerStream {
    /// Write the bytes of page `page_id`.
    fn write_page(&mut self, page_id: &PageId, page: &[u8]) -> Result<(), Error>
        requires
            page_id.0 * page@.len() + page@.len() <= usize::MAX,
    ;

    /// Read the bytes of page `page_id` into `page`, whose length is the page size.
    fn read_page(&mut self, page_id: &PageId, page: &mut Vec<u8>) -> Result<(), Error>
        requires
            page_id.0 * old(page)@.len() + old(page)@.len() <= usize::MAX,
    ;

    /// Read the version of the layout, stored first.
    fn read_version(&mut self) -> Result<u64, Error>;
}

} // verus!
