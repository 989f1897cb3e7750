//! A pager of in-memory pages: a bounded pool of pages, each found by the
//! identifier it was given when made.
use vstd::prelude::*;
use crate::io::{splice, extract, zeros, le64, lemma_le_roundtrip, lemma_splice_len};
use crate::paging::error::{Error, BufferError, IoError};
use crate::paging::page::{Page, PageSectionType, section_start, section_write, section_write_result, with_id_and_type, RESERVED};

pub mod traits;

use crate::paging::pager::traits::PageStorage;

verus! {

/// Size of every page.
pub const PAGE_SIZE: usize = 16_000;
/// Bytes reserved at the start of the pool.
pub const POOL_RESERVED: usize = 10;
/// Page type of a free page.
pub const FREE_PAGE: u8 = 0x00;
/// Page type of an overflow page.
pub const OVERFLOW_PAGE: u8 = 0xFF;

/// Walks a list of page identifiers.
pub struct BufPageIterator {
    ids: Vec<u64>,
    pos: usize,
}

impl BufPageIterator {
    pub closed spec fn remaining(&self) -> Seq<u64> {
        self.ids@.subrange(self.pos as int, self.ids@.len() as int)
    }

    pub closed spec fn iter_wf(&self) -> bool {
        self.pos <= self.ids@.len()
    }

    pub fn new(cells: Vec<u64>) -> (r: Self)
        ensures
            r.iter_wf(),
            r.remaining() == cells@,
    {
        let r = BufPageIterator { ids: cells, pos: 0 };
        assert(r.remaining() =~= r.ids@);
        r
    }

    /// The next identifier, if any is left.
    pub fn next(&mut self) -> (r: Option<u64>)
        requires
            old(self).iter_wf(),
        ensures
            final(self).iter_wf(),
            old(self).remaining().len() == 0 ==> r is None && final(self).remaining() == old(self).remaining(),
            old(self).remaining().len() > 0 ==> r == Some(old(self).remaining()[0])
                && final(self).remaining() == old(self).remaining().drop_first(),
    {
        if self.pos < self.ids.len() {
            let id = self.ids[self.pos];
            self.pos = self.pos + 1;
            assert(self.remaining() =~= old(self).remaining().drop_first());
            Some(id)
        } else {
            None
        }
    }
}

/// A pool of at most `capacity` pages, each kept with the identifier it was made with.
pub struct Pager<S: PageStorage> {
    pages: Vec<Page>,
    ids: Vec<u64>,
    capacity: usize,
    store: S,
    counter: u64,
}

/// The place of `pid` among `ids`, if it is there: identifiers are distinct.
pub open spec fn index_of(ids: Seq<u64>, pid: u64) -> Option<int> {
    if exists|i: int| 0 <= i < ids.len() && ids[i] == pid {
        Some(choose|i: int| 0 <= i < ids.len() && ids[i] == pid)
    } else {
        None
    }
}

impl<S: PageStorage> Pager<S> {
    /// Identifiers of the pages held, in the order they were made.
    pub closed spec fn ids_view(&self) -> Seq<u64> {
        self.ids@
    }

    /// The pages held, in the same order.
    pub closed spec fn pages_view(&self) -> Seq<Page> {
        self.pages@
    }

    pub closed spec fn capacity_view(&self) -> nat {
        self.capacity as nat
    }

    /// Whether the page of identifier `id` is held and changed since last acknowledged.
    pub open spec fn upserted_at(&self, id: u64) -> bool {
        exists|k: int| 0 <= k < self.ids_view().len() && #[trigger] self.ids_view()[k] == id
            && self.pages_view()[k].upserted_view()
    }

    /// The last identifier given out.
    pub closed spec fn counter_view(&self) -> u64 {
        self.counter
    }

    /// Pages and identifiers match up, identifiers are distinct and no larger
    /// than the last given out, and every page has the page size.
    pub open spec fn wf(&self) -> bool {
        &&& self.pages_view().len() == self.ids_view().len()
        &&& forall|i: int| 0 <= i < self.pages_view().len() ==> #[trigger] self.pages_view()[i].bytes().len() == PAGE_SIZE
        &&& forall|i: int, j: int| 0 <= i < j < self.ids_view().len() ==> self.ids_view()[i] != self.ids_view()[j]
        &&& forall|i: int| 0 <= i < self.ids_view().len() ==> #[trigger] self.ids_view()[i] <= self.counter_view()
    }

    /// Create a pager over `store` that holds up to `buffer_size` pages in memory.
    pub fn new(store: S, buffer_size: usize) -> (r: Self)
        ensures
            r.wf(),
            r.ids_view().len() == 0,
            r.capacity_view() == buffer_size,
            r.counter_view() == 0,
    {
        Pager { pages: Vec::new(), ids: Vec::new(), capacity: buffer_size, store, counter: 0 }
    }

    /// Identifiers of the pages held in memory.
    pub fn iter(&self) -> (r: Vec<u64>)
        ensures
            r@ == self.ids_view(),
    {
        self.ids.clone()
    }

    /// Identifiers of the pages held in memory that changed since last acknowledged, in order.
    pub fn iter_upserted_pages(&self) -> (r: Vec<u64>)
        requires
            self.wf(),
        ensures
            r@ == self.ids_view().filter(|id: u64| self.upserted_at(id)),
    {
        let mut out: Vec<u64> = Vec::new();
        let mut i: usize = 0;
        let ghost f = |id: u64| self.upserted_at(id);
        while i < self.ids.len()
            invariant
                self.wf(),
                f == (|id: u64| self.upserted_at(id)),
                i <= self.ids@.len(),
                out@ == self.ids@.subrange(0, i as int).filter(f),
            decreases self.ids@.len() - i,
        {
            let id = self.ids[i];
            proof {
                let s = self.ids@.subrange(0, i as int + 1);
                assert(s.drop_last() =~= self.ids@.subrange(0, i as int));
                assert(s.last() == id);
            }
            if self.pages[i].is_upserted() {
                out.push(id);
                proof {
                    reveal(Seq::filter);
                    assert(0 <= i < self.ids_view().len() && self.ids_view()[i as int] == id && self.pages_view()[i as int].upserted_view());
                    assert(f(id));
                    let s = self.ids@.subrange(0, i as int + 1);
                    assert(s.filter(f) == s.drop_last().filter(f).push(id));
                }
            } else {
                proof {
                    assert forall|k: int| 0 <= k < self.ids_view().len() && #[trigger] self.ids_view()[k] == id implies !self.pages_view()[k].upserted_view() by {
                        if k != i {
                            if k < i {
                                assert(self.ids@[k] != self.ids@[i as int]);
                            } else {
                                assert(self.ids@[i as int] != self.ids@[k]);
                            }
                        }
                    }
                    assert(!f(id));
                    reveal(Seq::filter);
                    let s = self.ids@.subrange(0, i as int + 1);
                    assert(s.filter(f) == s.drop_last().filter(f));
                }
            }
            i = i + 1;
        }
        assert(self.ids@.subrange(0, self.ids@.len() as int) =~= self.ids@);
        out
    }

    /// The place of `pid` among the pages held.
    fn find(&self, pid: u64) -> (r: Option<usize>)
        requires
            self.wf(),
        ensures
            r == (match index_of(self.ids_view(), pid) {
                Some(i) => Some(i as usize),
                None => None::<usize>,
            }),
            r matches Some(i) ==> i < self.ids_view().len() && self.ids_view()[i as int] == pid,
    {
        let mut i: usize = 0;
        while i < self.ids.len()
            invariant
                self.wf(),
                i <= self.ids@.len(),
                forall|k: int| 0 <= k < i ==> self.ids@[k] != pid,
            decreases self.ids@.len() - i,
        {
            if self.ids[i] == pid {
                proof {
                    let j = choose|j: int| 0 <= j < self.ids@.len() && self.ids@[j] == pid;
                    if j != i {
                        if j < i { assert(self.ids@[j] != pid); } else { assert(self.ids@[i as int] != self.ids@[j]); }
                    }
                }
                return Some(i);
            }
            i = i + 1;
        }
        None
    }
}

} // verus!

verus! {

/// The bytes of a page just made with identifier `pid` and type `ptype`.
pub open spec fn fresh_page_bytes(pid: u64, ptype: u8) -> Seq<u8> {
    with_id_and_type(Seq::new(PAGE_SIZE as nat, |i: int| 0u8), pid, ptype)
}

impl<S: PageStorage> traits::Pager for Pager<S> {
    open spec fn inv(&self) -> bool {
        self.wf()
    }

    /// Make a page of type `ptype` with the next identifier, if the pool has room.
    fn new_page(&mut self, ptype: u8) -> (r: Result<u64, Error>)
        ensures
            final(self).capacity_view() == old(self).capacity_view(),
            old(self).ids_view().len() >= old(self).capacity_view() || old(self).counter_view() == u64::MAX
                ==> r == Err::<u64, Error>(Error::BufferError(BufferError::Full))
                && final(self).ids_view() == old(self).ids_view()
                && final(self).pages_view() == old(self).pages_view()
                && final(self).counter_view() == old(self).counter_view(),
            old(self).ids_view().len() < old(self).capacity_view() && old(self).counter_view() < u64::MAX ==> {
                let pid = (old(self).counter_view() + 1) as u64;
                &&& r == Ok::<u64, Error>(pid)
                &&& final(self).counter_view() == pid
                &&& final(self).ids_view() == old(self).ids_view().push(pid)
                &&& final(self).pages_view().len() == old(self).pages_view().len() + 1
                &&& final(self).pages_view().subrange(0, old(self).pages_view().len() as int) == old(self).pages_view()
                &&& final(self).pages_view().last().bytes() == fresh_page_bytes(pid, ptype)
                &&& final(self).pages_view().last().upserted_view()
                &&& !old(self).holds(pid)
                &&& final(self).store_view() == old(self).store_view().insert(pid, fresh_page_bytes(pid, ptype))
            },
    {
        if self.pages.len() >= self.capacity || self.counter == u64::MAX {
            return Err(Error::BufferError(BufferError::Full));
        }
        let pid = self.counter + 1;
        let data = zeros(PAGE_SIZE);
        let page = Page::new(pid, ptype, data);
        proof {
            lemma_le_roundtrip();
            lemma_splice_len(data@, 0, le64(pid));
            lemma_splice_len(splice(data@, 0, le64(pid)), 8, seq![ptype]);
        }
        self.pages.push(page);
        self.ids.push(pid);
        self.counter = pid;
        assert(self.pages@.subrange(0, old(self).pages@.len() as int) =~= old(self).pages@);
        proof {
            let n = old(self).ids@.len() as int;
            assert(self.ids@[n] == pid);
            assert(index_of(self.ids@, pid) == Some(n));
            assert forall|q: u64| old(self).holds(q) implies index_of(self.ids_view(), q) == index_of(old(self).ids_view(), q) by {
                let j = index_of(old(self).ids_view(), q)->0;
                assert(self.ids@[j] == q);
            }
            assert forall|q: u64| #![trigger self.holds(q)] q != pid && !old(self).holds(q) implies !self.holds(q) by {
                if self.holds(q) {
                    let j = index_of(self.ids_view(), q)->0;
                    assert(old(self).ids@[j] == q);
                }
            }
            assert(self.store_view() =~= old(self).store_view().insert(pid, fresh_page_bytes(pid, ptype)));
        }
        Ok(pid)
    }

    /// The page of identifier `pid`, if it is held.
    fn borrow_page(&self, pid: &u64) -> (r: Result<&Page, Error>)
        ensures
            match index_of(self.ids_view(), *pid) {
                Some(i) => r matches Ok(p) && *p == self.pages_view()[i],
                None => r == Err::<&Page, Error>(Error::BufferError(BufferError::UnknownPage)),
            },
    {
        match self.find(*pid) {
            Some(i) => Ok(&self.pages[i]),
            None => Err(Error::BufferError(BufferError::UnknownPage)),
        }
    }

    /// Write `data` in a section of the page of identifier `pid`, from `offset`.
    fn write_page(&mut self, pid: &u64, section: PageSectionType, offset: usize, data: &[u8]) -> (r: Result<(), Error>)
        ensures
            final(self).ids_view() == old(self).ids_view(),
            final(self).capacity_view() == old(self).capacity_view(),
            final(self).counter_view() == old(self).counter_view(),
            final(self).pages_view().len() == old(self).pages_view().len(),
            match index_of(old(self).ids_view(), *pid) {
                Some(i) => {
                    &&& r == section_write_result(old(self).pages_view()[i].bytes(), section, offset as int, data@)
                    &&& final(self).pages_view()[i].bytes() == section_write(old(self).pages_view()[i].bytes(), section, offset as int, data@)
                    &&& forall|k: int| 0 <= k < old(self).pages_view().len() && k != i ==> #[trigger] final(self).pages_view()[k] == old(self).pages_view()[k]
                },
                None => r == Err::<(), Error>(Error::BufferError(BufferError::UnknownPage))
                    && final(self).pages_view() == old(self).pages_view(),
            },
    {
        match self.find(*pid) {
            Some(i) => {
                let mut page = self.pages.remove(i);
                let r = page.write_section(section, offset, data);
                self.pages.insert(i, page);
                assert forall|k: int| 0 <= k < old(self).pages@.len() && k != i implies #[trigger] self.pages@[k] == old(self).pages@[k] by {
                    if k < i {
                    } else {
                    }
                }
                r
            },
            None => Err(Error::BufferError(BufferError::UnknownPage)),
        }
    }

    /// Drop the page of identifier `pid` from the pool.
    fn drop_page(&mut self, pid: &u64) -> (r: Result<(), Error>)
        ensures
            final(self).capacity_view() == old(self).capacity_view(),
            final(self).counter_view() == old(self).counter_view(),
            match index_of(old(self).ids_view(), *pid) {
                Some(i) => r == Ok::<(), Error>(())
                    && final(self).ids_view() == old(self).ids_view().remove(i)
                    && final(self).pages_view() == old(self).pages_view().remove(i),
                None => r == Err::<(), Error>(Error::BufferError(BufferError::UnknownPage))
                    && final(self).ids_view() == old(self).ids_view()
                    && final(self).pages_view() == old(self).pages_view(),
            },
            final(self).store_view() == (if old(self).holds(*pid) {
                old(self).store_view().remove(*pid)
            } else {
                old(self).store_view()
            }),
    {
        match self.find(*pid) {
            Some(i) => {
                self.pages.remove(i);
                self.ids.remove(i);
                proof {
                    assert forall|a: int, b: int| 0 <= a < b < self.ids@.len() implies self.ids@[a] != self.ids@[b] by {
                        let a0 = if a < i { a } else { a + 1 };
                        let b0 = if b < i { b } else { b + 1 };
                        assert(old(self).ids@[a0] != old(self).ids@[b0]);
                    }
                    assert forall|q: u64| #![trigger self.holds(q)] q != *pid implies
                        (self.holds(q) == old(self).holds(q) && (self.holds(q) ==> self.page_bytes(q) == old(self).page_bytes(q))) by {
                        if old(self).holds(q) {
                            let j = index_of(old(self).ids_view(), q)->0;
                            assert(j != i);
                            let j2 = if j < i { j } else { j - 1 };
                            assert(self.ids@[j2] == q);
                            assert(index_of(self.ids_view(), q) == Some(j2)) by {
                                let c = choose|c: int| 0 <= c < self.ids@.len() && self.ids@[c] == q;
                                if c != j2 {
                                    if c < j2 { assert(self.ids@[c] != self.ids@[j2]); } else { assert(self.ids@[j2] != self.ids@[c]); }
                                }
                            }
                        }
                        if self.holds(q) {
                            let j2 = index_of(self.ids_view(), q)->0;
                            let j = if j2 < i { j2 } else { j2 + 1 };
                            assert(old(self).ids@[j] == q);
                        }
                    }
                    assert(!self.holds(*pid)) by {
                        if self.holds(*pid) {
                            let j2 = index_of(self.ids_view(), *pid)->0;
                            let j = if j2 < i { j2 } else { j2 + 1 };
                            assert(old(self).ids@[j] == *pid);
                            assert(old(self).ids@[i as int] == *pid);
                            if j < i { assert(old(self).ids@[j] != old(self).ids@[i as int]); } else { assert(old(self).ids@[i as int] != old(self).ids@[j]); }
                        }
                    }
                    assert(self.store_view() =~= old(self).store_view().remove(*pid));
                }
                Ok(())
            },
            None => Err(Error::BufferError(BufferError::UnknownPage)),
        }
    }
}

} // verus!

verus! {

impl<S: PageStorage> Pager<S> {
    /// Whether the page of identifier `pid` is held.
    pub open spec fn holds(&self, pid: u64) -> bool {
        index_of(self.ids_view(), pid) is Some
    }

    /// The bytes of the page of identifier `pid`, when it is held.
    pub open spec fn page_bytes(&self, pid: u64) -> Seq<u8> {
        self.pages_view()[index_of(self.ids_view(), pid)->0].bytes()
    }

    /// The pages held, as bytes by identifier.
    pub open spec fn store_view(&self) -> Map<u64, Seq<u8>> {
        Map::new(|q: u64| self.holds(q), |q: u64| self.page_bytes(q))
    }

    /// The `len` bytes of page `pid` from `off`.
    pub fn read_bytes_at(&self, pid: u64, off: usize, len: usize) -> (r: Vec<u8>)
        requires
            self.wf(),
            self.holds(pid),
            off + len <= PAGE_SIZE,
        ensures
            r@ == extract(self.page_bytes(pid), off as int, len as int),
    {
        let i = self.find(pid).unwrap();
        let page = &self.pages[i];
        match page.read_section(PageSectionType::All, off, len) {
            Ok(v) => v,
            Err(_) => {
                assert(false);
                Vec::new()
            },
        }
    }

    /// Write `data` in page `pid` from `off`.
    pub fn write_bytes_at(&mut self, pid: u64, off: usize, data: &[u8])
        requires
            old(self).wf(),
            old(self).holds(pid),
            off + data@.len() <= PAGE_SIZE,
        ensures
            final(self).wf(),
            final(self).ids_view() == old(self).ids_view(),
            final(self).capacity_view() == old(self).capacity_view(),
            final(self).counter_view() == old(self).counter_view(),
            final(self).store_view() == old(self).store_view().insert(pid, splice(old(self).page_bytes(pid), off as int, data@)),
    {
        let i = self.find(pid).unwrap();
        let mut page = self.pages.remove(i);
        let _ = page.write_section(PageSectionType::All, off, data);
        self.pages.insert(i, page);
        proof {
            assert forall|k: int| 0 <= k < old(self).pages@.len() && k != i implies #[trigger] self.pages@[k] == old(self).pages@[k] by {
                if k < i {} else {}
            }
            assert(self.store_view() =~= old(self).store_view().insert(pid, splice(old(self).page_bytes(pid), off as int, data@)));
        }
    }
}

} // verus!

verus! {

/// Every page held has the page size, and an identifier no larger than the last given out.
pub proof fn lemma_store_page_size<S: PageStorage>(pager: &Pager<S>)
    requires
        pager.wf(),
    ensures
        forall|q: u64| #[trigger] pager.store_view().contains_key(q) ==> pager.store_view()[q].len() == PAGE_SIZE,
        forall|q: u64| #[trigger] pager.store_view().contains_key(q) ==> q <= pager.counter_view(),
{
    assert forall|q: u64| #[trigger] pager.store_view().contains_key(q) implies pager.store_view()[q].len() == PAGE_SIZE
        && q <= pager.counter_view() by {
        let i = index_of(pager.ids_view(), q)->0;
        assert(pager.pages_view()[i].bytes().len() == PAGE_SIZE);
        assert(pager.ids_view()[i] == q);
    }
}

} // verus!
