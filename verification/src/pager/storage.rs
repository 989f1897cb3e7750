//! Where the pages of a stream-backed pager lie in the stream.
use vstd::prelude::*;
use crate::pager::id::PageId;
use crate::pager::page::size::PageSize;
use crate::paging::error::Error;
use crate::paging::page::Page;

verus! {

/// A place pages and the pager header are flushed to and fetched from.
pub trait PagerStorage {
    fn flush_page(&mut self, page_id: PageId, page_size: PageSize, page: &Page, base: u64) -> Result<(), Error>;

    fn fetch_page(&mut self, page_id: PageId, page_size: PageSize, base: u64) -> Result<Vec<u8>, Error>;
}

/// A stream that holds a pager: the header from `base`, then the pages one after another.
pub struct PagerStream<S>(pub S);

/// Where page `id` starts in the stream, pages of `size` bytes starting at
/// `base` with page 1 first; computed modulo 2^64, as the stream layout does.
pub open spec fn stream_page_offset(id: u64, size: u64, base: u64) -> u64 {
    ((base + ((id - 1) * size)) % 0x1_0000_0000_0000_0000) as u64
}

impl<S> PagerStream<S> {
    pub fn new(stream: S) -> (r: Self)
        ensures
            r.0 == stream,
    {
        PagerStream(stream)
    }

    /// Where page `page_id` starts in the stream.
    pub fn page_offset(page_id: PageId, page_size: PageSize, base: u64) -> (r: u64)
        ensures
            r == stream_page_offset(page_id.0, page_size.0, base),
    {
        let id = page_id.0;
        let size = page_size.0;
        let k = id.wrapping_sub(1);
        let m = k.wrapping_mul(size);
        let r = base.wrapping_add(m);
        proof {
            let M: int = 0x1_0000_0000_0000_0000;
            assert(k as int == (id - 1 + M) % M);
            assert(m as int == (k * size) % M);
            assert(r as int == (base + m) % M);
            assert((base + m) % M == (base + (id - 1) * size) % M) by (nonlinear_arith)
                requires
                    M == 0x1_0000_0000_0000_0000,
                    k as int == (id - 1 + M) % M,
                    m as int == (k * size) % M,
                    0 <= id < M,
                    0 <= size < M,
                    0 <= base < M,
            ;
        }
        r
    }
}

} // verus!

verus! {

/// Consecutive pages lie one page size apart in the stream, modulo 2^64.
pub proof fn lemma_consecutive_pages(id: u64, size: u64, base: u64)
    requires
        1 <= id < u64::MAX,
    ensures
        stream_page_offset((id + 1) as u64, size, base)
            == ((stream_page_offset(id, size, base) + size) % 0x1_0000_0000_0000_0000) as u64,
{
    let M: int = 0x1_0000_0000_0000_0000;
    let x: int = base + (id - 1) * size;
    vstd::arithmetic::div_mod::lemma_add_mod_noop(x, size as int, M);
    assert((size as int) % M == size as int) by {
        vstd::arithmetic::div_mod::lemma_small_mod(size as nat, M as nat);
    }
    assert(x + size == base + id * size) by (nonlinear_arith)
        requires
            x == base + (id - 1) * size,
    ;
}

} // verus!
