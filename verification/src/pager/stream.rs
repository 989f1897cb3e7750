//! A byte buffer that holds the pages of a pager one after another, page `id`
//! starting `id` page sizes from the start.
use vstd::prelude::*;
use crate::io::{splice, extract, u64_at, write_bytes, read_bytes, read_u64};
use crate::pager::id::PageId;
use crate::pager::traits::stream::PagerStream;
use crate::paging::error::{Error, IoError};

verus! {

/// A growable buffer of bytes.
pub struct DataBuffer {
    data: Vec<u8>,
}

/// `s` made at least `n` bytes long, with zeros after its end.
pub open spec fn grown(s: Seq<u8>, n: int) -> Seq<u8> {
    if n <= s.len() { s } else { s + Seq::new((n - s.len()) as nat, |i: int| 0u8) }
}

impl DataBuffer {
    pub closed spec fn bytes(&self) -> Seq<u8> {
        self.data@
    }

    pub fn new() -> (r: Self)
        ensures
            r.bytes() == Seq::<u8>::empty(),
    {
        DataBuffer { data: Vec::new() }
    }

    /// Number of bytes held.
    pub fn len(&self) -> (r: usize)
        ensures
            r == self.bytes().len(),
    {
        self.data.len()
    }

    /// Grow the buffer with zeros to at least `size` bytes.
    pub fn increase_size_if_necessary(&mut self, size: usize)
        ensures
            final(self).bytes() == grown(old(self).bytes(), size as int),
    {
        let ghost start = self.data@;
        if self.data.len() < size {
            let mut i: usize = self.data.len();
            while i < size
                invariant
                    start.len() <= i <= size,
                    self.data@.len() == i,
                    self.data@ =~= start + Seq::new((i - start.len()) as nat, |k: int| 0u8),
                decreases size - i,
            {
                self.data.push(0u8);
                i = i + 1;
            }
        }
        assert(self.data@ =~= grown(start, size as int));
    }
}

impl PagerStream for DataBuffer {
    /// Write the page where page `page_id` lies, growing the buffer as needed.
    fn write_page(&mut self, page_id: &PageId, page: &[u8]) -> (r: Result<(), Error>)
        ensures
            r is Ok,
            ({
                let at = page_id.0 * page@.len();
                final(self).bytes() == splice(grown(old(self).bytes(), at + page@.len()), at, page@)
            }),
    {
        let len = page.len();
        let len64 = len as u64;
        let offset64 = page_id.0 * len64;
        let offset = offset64 as usize;
        let size = offset + len;
        self.increase_size_if_necessary(size);
        write_bytes(&mut self.data, offset, page);
        Ok(())
    }

    /// Read the page where page `page_id` lies; fails if the buffer ends before it.
    fn read_page(&mut self, page_id: &PageId, page: &mut Vec<u8>) -> (r: Result<(), Error>)
        ensures
            final(self).bytes() == old(self).bytes(),
            ({
                let len = old(page)@.len();
                let at = page_id.0 * len;
                if at + len <= old(self).bytes().len() {
                    r is Ok && final(page)@ == extract(old(self).bytes(), at, len as int)
                } else {
                    r == Err::<(), Error>(Error::IoError(IoError::UnexpectedEof)) && final(page)@ == old(page)@
                }
            }),
    {
        let len = page.len();
        let len64 = len as u64;
        let offset64 = page_id.0 * len64;
        let offset = offset64 as usize;
        if offset + len > self.data.len() {
            return Err(Error::IoError(IoError::UnexpectedEof));
        }
        *page = read_bytes(self.data.as_slice(), offset, len);
        Ok(())
    }

    /// The version stored in the first eight bytes.
    fn read_version(&mut self) -> (r: Result<u64, Error>)
        ensures
            final(self).bytes() == old(self).bytes(),
            old(self).bytes().len() >= 8 ==> r == Ok::<u64, Error>(u64_at(old(self).bytes(), 0)),
            old(self).bytes().len() < 8 ==> r == Err::<u64, Error>(Error::IoError(IoError::UnexpectedEof)),
    {
        if self.data.len() < 8 {
            return Err(Error::IoError(IoError::UnexpectedEof));
        }
        Ok(read_u64(self.data.as_slice(), 0))
    }
}

/// A page written to the buffer reads back as written, and the pages before
/// it stay as they were.
pub proof fn lemma_write_then_read_page(bytes: Seq<u8>, id: u64, page: Seq<u8>, other: u64)
    requires
        other < id,
    ensures
        ({
            let len = page.len() as int;
            let at = id * len;
            let after = splice(grown(bytes, at + len), at, page);
            &&& at + len <= after.len()
            &&& extract(after, at, len) == page
            &&& other * len + len <= bytes.len() ==> extract(after, other * len, len) == extract(bytes, other * len, len)
        }),
{
    let len = page.len() as int;
    let at = id * len;
    assert(at >= 0) by (nonlinear_arith)
        requires
            at == id * len,
            id >= 0,
            len >= 0,
    ;
    let g = grown(bytes, at + len);
    let after = splice(g, at, page);
    assert(g.len() >= at + len);
    assert(after.len() == g.len());
    assert(extract(after, at, len) =~= page);
    if other * len + len <= bytes.len() {
        assert(other * len + len <= at) by (nonlinear_arith)
            requires
                other < id,
                at == id * len,
                len >= 0,
                other >= 0,
        {
            assert((other + 1) * len <= id * len);
        };
        assert(extract(after, other * len, len) =~= extract(bytes, other * len, len));
    }
}

} // verus!
