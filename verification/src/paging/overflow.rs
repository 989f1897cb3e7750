//! Variable-length values written through a stream of sections: a source
//! section inside some page (next page, bytes held, total size, then its
//! body), followed by overflow pages (bytes held, next page, then their body).
use vstd::prelude::*;
use vstd::bytes::{u16_to_le_bytes, u64_to_le_bytes};
use vstd::slice::slice_subrange;
use crate::io::{splice, extract, u16_at, u64_at, le16, le64, lemma_le_roundtrip, lemma_splice_len, read_u16, read_u64};
use crate::paging::error::{Error, IoError};
use crate::paging::pager::{Pager, PAGE_SIZE, OVERFLOW_PAGE, fresh_page_bytes, lemma_store_page_size};
use crate::paging::pager::traits::PageStorage;
use crate::paging::page::RESERVED;

verus! {

/// Where, in an overflow page, the number of bytes held starts.
pub const OV_SIZE: usize = 18;
/// Where, in an overflow page, the next page starts.
pub const OV_NEXT: usize = 20;
/// Where, in an overflow page, the body starts.
pub const OV_BODY: usize = 30;

/// Where, in a source section, the next page starts.
pub const SOURCE_NEXT: usize = 0;
/// Where, in a source section, the number of bytes held starts.
pub const SOURCE_IN_SIZE: usize = 8;
/// Where, in a source section, the total size starts.
pub const SOURCE_SIZE: usize = 10;
/// Where, in a source section, the body starts.
pub const SOURCE_RESERVED: usize = 18;

/// An overflow page, by identifier.
#[derive(Debug, Clone, Copy, PartialEq, Eq, Structural)]
pub struct OverflowPage {
    pub page: u64,
}

/// A source section: the bytes `start` to `end` of a page.
#[derive(Debug, Clone, Copy, PartialEq, Eq, Structural)]
pub struct VarSource {
    pub page: u64,
    pub start: usize,
    pub end: usize,
}

/// A section of a variable: its source, or one of its overflow pages.
#[derive(Debug, Clone, Copy, PartialEq, Eq, Structural)]
pub enum VarSection {
    Overflow(OverflowPage),
    Source(VarSource),
}

/// The page a stored identifier designates: 0 stands for none.
pub open spec fn opt_pid(v: u64) -> Option<u64> {
    if v == 0 { None } else { Some(v) }
}

/// The pages once `data` is written at `pos` in page `page`.
pub open spec fn put(m: Map<u64, Seq<u8>>, page: u64, pos: int, data: Seq<u8>) -> Map<u64, Seq<u8>> {
    m.insert(page, splice(m[page], pos, data))
}

impl VarSection {
    pub open spec fn page_id(self) -> u64 {
        match self {
            VarSection::Overflow(o) => o.page,
            VarSection::Source(s) => s.page,
        }
    }

    pub open spec fn next_pos(self) -> int {
        match self {
            VarSection::Overflow(o) => OV_NEXT as int,
            VarSection::Source(s) => s.start + SOURCE_NEXT,
        }
    }

    pub open spec fn in_size_pos(self) -> int {
        match self {
            VarSection::Overflow(o) => OV_SIZE as int,
            VarSection::Source(s) => s.start + SOURCE_IN_SIZE,
        }
    }

    pub open spec fn body_start(self) -> int {
        match self {
            VarSection::Overflow(o) => OV_BODY as int,
            VarSection::Source(s) => s.start + SOURCE_RESERVED,
        }
    }

    pub open spec fn body_end(self) -> int {
        match self {
            VarSection::Overflow(o) => PAGE_SIZE as int,
            VarSection::Source(s) => s.end as int,
        }
    }

    pub open spec fn body_len(self) -> int {
        self.body_end() - self.body_start()
    }

    /// The section lies in a page held in `m`.
    pub open spec fn valid(self, m: Map<u64, Seq<u8>>) -> bool {
        &&& m.contains_key(self.page_id())
        &&& m[self.page_id()].len() == PAGE_SIZE
        &&& match self {
            VarSection::Overflow(o) => true,
            VarSection::Source(s) => s.start + SOURCE_RESERVED <= s.end <= PAGE_SIZE,
        }
    }

    /// Number of bytes the section holds, as recorded in it.
    pub open spec fn in_size_in(self, m: Map<u64, Seq<u8>>) -> u16 {
        u16_at(m[self.page_id()], self.in_size_pos())
    }

    /// The next page, as recorded in the section.
    pub open spec fn next_in(self, m: Map<u64, Seq<u8>>) -> Option<u64> {
        opt_pid(u64_at(m[self.page_id()], self.next_pos()))
    }

    /// The body of the section.
    pub open spec fn body_in(self, m: Map<u64, Seq<u8>>) -> Seq<u8> {
        m[self.page_id()].subrange(self.body_start(), self.body_end())
    }
}

impl VarSource {
    pub open spec fn section(self) -> VarSection {
        VarSection::Source(self)
    }

    /// The total size of the variable, as recorded in its source.
    pub open spec fn size_in(self, m: Map<u64, Seq<u8>>) -> u64 {
        u64_at(m[self.page], self.start + SOURCE_SIZE)
    }
}

impl OverflowPage {
    pub open spec fn section(self) -> VarSection {
        VarSection::Overflow(self)
    }
}

/// Writing bytes in the body of a section, as `deref_mut_body` does, leaves
/// the section valid and its recorded next page, number of bytes held and,
/// for a source, total size as they were; the bytes read back at their offset
/// in the body, as `deref_body` gives it, and the rest of the body stays.
pub proof fn lemma_body_write(sec: VarSection, m: Map<u64, Seq<u8>>, offset: int, data: Seq<u8>)
    requires
        sec.valid(m),
        0 <= offset,
        offset + data.len() <= sec.body_len(),
    ensures
        ({
            let m2 = put(m, sec.page_id(), sec.body_start() + offset, data);
            &&& sec.valid(m2)
            &&& sec.next_in(m2) == sec.next_in(m)
            &&& sec.in_size_in(m2) == sec.in_size_in(m)
            &&& sec.body_in(m2).len() == sec.body_len()
            &&& sec.body_in(m2).subrange(offset, offset + data.len()) == data
            &&& forall|i: int| 0 <= i < sec.body_len() && !(offset <= i < offset + data.len())
                ==> #[trigger] sec.body_in(m2)[i] == sec.body_in(m)[i]
            &&& (sec matches VarSection::Source(src) ==> src.size_in(m2) == src.size_in(m))
        }),
{
    let page = m[sec.page_id()];
    let pos = sec.body_start() + offset;
    let p2 = splice(page, pos, data);
    let m2 = put(m, sec.page_id(), pos, data);
    assert(m2[sec.page_id()] == p2);
    assert(p2.len() == page.len());
    assert(extract(p2, sec.next_pos(), 8) =~= extract(page, sec.next_pos(), 8));
    assert(extract(p2, sec.in_size_pos(), 2) =~= extract(page, sec.in_size_pos(), 2));
    assert(sec.body_in(m2).subrange(offset, offset + data.len()) =~= data);
    if let VarSection::Source(src) = sec {
        assert(extract(p2, src.start + SOURCE_SIZE, 8) =~= extract(page, src.start + SOURCE_SIZE, 8));
    }
}

/// Read the `u16` at `pos` of page `page`.
fn get_u16<S: PageStorage>(pager: &Pager<S>, page: u64, pos: usize) -> (r: u16)
    requires
        pager.wf(),
        pager.holds(page),
        pos + 2 <= PAGE_SIZE,
    ensures
        r == u16_at(pager.store_view()[page], pos as int),
{
    let b = pager.read_bytes_at(page, pos, 2);
    assert(extract(b@, 0, 2) =~= extract(pager.page_bytes(page), pos as int, 2));
    read_u16(b.as_slice(), 0)
}

/// Read the `u64` at `pos` of page `page`.
fn get_u64<S: PageStorage>(pager: &Pager<S>, page: u64, pos: usize) -> (r: u64)
    requires
        pager.wf(),
        pager.holds(page),
        pos + 8 <= PAGE_SIZE,
    ensures
        r == u64_at(pager.store_view()[page], pos as int),
{
    let b = pager.read_bytes_at(page, pos, 8);
    assert(extract(b@, 0, 8) =~= extract(pager.page_bytes(page), pos as int, 8));
    read_u64(b.as_slice(), 0)
}

/// Write the `u16` `v` at `pos` of page `page`.
fn put_u16<S: PageStorage>(pager: &mut Pager<S>, page: u64, pos: usize, v: u16)
    requires
        old(pager).wf(),
        old(pager).holds(page),
        pos + 2 <= PAGE_SIZE,
    ensures
        final(pager).wf(),
        final(pager).ids_view() == old(pager).ids_view(),
        final(pager).capacity_view() == old(pager).capacity_view(),
        final(pager).counter_view() == old(pager).counter_view(),
        final(pager).store_view() == put(old(pager).store_view(), page, pos as int, le16(v)),
{
    proof { lemma_le_roundtrip(); }
    let b = u16_to_le_bytes(v);
    pager.write_bytes_at(page, pos, b.as_slice());
}

/// Write the `u64` `v` at `pos` of page `page`.
fn put_u64<S: PageStorage>(pager: &mut Pager<S>, page: u64, pos: usize, v: u64)
    requires
        old(pager).wf(),
        old(pager).holds(page),
        pos + 8 <= PAGE_SIZE,
    ensures
        final(pager).wf(),
        final(pager).ids_view() == old(pager).ids_view(),
        final(pager).capacity_view() == old(pager).capacity_view(),
        final(pager).counter_view() == old(pager).counter_view(),
        final(pager).store_view() == put(old(pager).store_view(), page, pos as int, le64(v)),
{
    proof { lemma_le_roundtrip(); }
    let b = u64_to_le_bytes(v);
    pager.write_bytes_at(page, pos, b.as_slice());
}

} // verus!

verus! {

/// A write inside a page keeps every section valid.
pub proof fn lemma_put_keeps_valid(m: Map<u64, Seq<u8>>, page: u64, pos: int, data: Seq<u8>, sec: VarSection)
    requires
        sec.valid(m),
        m.contains_key(page),
        m[page].len() == PAGE_SIZE,
        0 <= pos,
        pos + data.len() <= PAGE_SIZE,
    ensures
        sec.valid(put(m, page, pos, data)),
        put(m, page, pos, data)[page].len() == PAGE_SIZE,
        put(m, page, pos, data).dom() == m.dom(),
{
    lemma_splice_len(m[page], pos, data);
    assert(put(m, page, pos, data).dom() =~= m.dom());
}

impl VarSection {
    fn next_at(&self) -> (r: usize)
        requires
            self.body_start() <= PAGE_SIZE,
        ensures
            r == self.next_pos(),
    {
        match self {
            VarSection::Overflow(_) => OV_NEXT,
            VarSection::Source(s) => s.start + SOURCE_NEXT,
        }
    }

    fn in_size_at(&self) -> (r: usize)
        requires
            self.body_start() <= PAGE_SIZE,
        ensures
            r == self.in_size_pos(),
    {
        match self {
            VarSection::Overflow(_) => OV_SIZE,
            VarSection::Source(s) => s.start + SOURCE_IN_SIZE,
        }
    }

    fn body_bounds(&self) -> (r: (usize, usize))
        requires
            self.body_start() <= self.body_end() <= PAGE_SIZE,
        ensures
            r.0 == self.body_start(),
            r.1 == self.body_end(),
    {
        match self {
            VarSection::Overflow(_) => (OV_BODY, PAGE_SIZE),
            VarSection::Source(s) => (s.start + SOURCE_RESERVED, s.end),
        }
    }

    fn page(&self) -> (r: u64)
        ensures
            r == self.page_id(),
    {
        match self {
            VarSection::Overflow(o) => o.page,
            VarSection::Source(s) => s.page,
        }
    }

    /// The next page, as recorded in the section.
    pub fn get_next<S: PageStorage>(&self, pager: &Pager<S>) -> (r: Option<u64>)
        requires
            pager.wf(),
            self.valid(pager.store_view()),
        ensures
            r == self.next_in(pager.store_view()),
    {
        let v = get_u64(pager, self.page(), self.next_at());
        if v == 0 { None } else { Some(v) }
    }

    /// Record `pid` as the next page.
    pub fn set_next<S: PageStorage>(&self, pager: &mut Pager<S>, pid: u64)
        requires
            old(pager).wf(),
            self.valid(old(pager).store_view()),
        ensures
            final(pager).wf(),
            final(pager).ids_view() == old(pager).ids_view(),
            final(pager).capacity_view() == old(pager).capacity_view(),
            final(pager).counter_view() == old(pager).counter_view(),
            final(pager).store_view() == put(old(pager).store_view(), self.page_id(), self.next_pos(), le64(pid)),
    {
        put_u64(pager, self.page(), self.next_at(), pid);
    }

    /// Number of bytes the section holds, as recorded in it.
    pub fn get_in_size<S: PageStorage>(&self, pager: &Pager<S>) -> (r: u16)
        requires
            pager.wf(),
            self.valid(pager.store_view()),
        ensures
            r == self.in_size_in(pager.store_view()),
    {
        get_u16(pager, self.page(), self.in_size_at())
    }

    /// Record `size` as the number of bytes the section holds.
    pub fn set_in_size<S: PageStorage>(&self, pager: &mut Pager<S>, size: u16)
        requires
            old(pager).wf(),
            self.valid(old(pager).store_view()),
        ensures
            final(pager).wf(),
            final(pager).ids_view() == old(pager).ids_view(),
            final(pager).capacity_view() == old(pager).capacity_view(),
            final(pager).counter_view() == old(pager).counter_view(),
            final(pager).store_view() == put(old(pager).store_view(), self.page_id(), self.in_size_pos(), le16(size)),
    {
        put_u16(pager, self.page(), self.in_size_at(), size);
    }

    /// Raise the recorded number of bytes held to `cursor`, taken modulo 2^16, if it is larger.
    pub fn push_in_size_cursor<S: PageStorage>(&self, pager: &mut Pager<S>, cursor: usize)
        requires
            old(pager).wf(),
            self.valid(old(pager).store_view()),
        ensures
            final(pager).wf(),
            final(pager).ids_view() == old(pager).ids_view(),
            final(pager).capacity_view() == old(pager).capacity_view(),
            final(pager).counter_view() == old(pager).counter_view(),
            final(pager).store_view() == put(old(pager).store_view(), self.page_id(), self.in_size_pos(),
                le16(if self.in_size_in(old(pager).store_view()) >= cursor as u16 {
                    self.in_size_in(old(pager).store_view())
                } else {
                    cursor as u16
                })),
    {
        let current = self.get_in_size(pager);
        let c = cursor as u16;
        let in_size = if current >= c { current } else { c };
        self.set_in_size(pager, in_size);
    }

    /// A copy of the body of the section.
    pub fn deref_body<S: PageStorage>(&self, pager: &Pager<S>) -> (r: Vec<u8>)
        requires
            pager.wf(),
            self.valid(pager.store_view()),
        ensures
            r@ == self.body_in(pager.store_view()),
    {
        let (b, e) = self.body_bounds();
        let v = pager.read_bytes_at(self.page(), b, e - b);
        assert(v@ =~= self.body_in(pager.store_view()));
        v
    }

    /// Write `data` in the body of the section from `offset`.
    pub fn deref_mut_body<S: PageStorage>(&self, pager: &mut Pager<S>, offset: usize, data: &[u8])
        requires
            old(pager).wf(),
            self.valid(old(pager).store_view()),
            offset + data@.len() <= self.body_len(),
        ensures
            final(pager).wf(),
            final(pager).ids_view() == old(pager).ids_view(),
            final(pager).capacity_view() == old(pager).capacity_view(),
            final(pager).counter_view() == old(pager).counter_view(),
            final(pager).store_view() == put(old(pager).store_view(), self.page_id(), self.body_start() + offset, data@),
    {
        let (b, _e) = self.body_bounds();
        pager.write_bytes_at(self.page(), b + offset, data);
    }
}

} // verus!

verus! {

impl OverflowPage {
    /// The next page, as recorded.
    pub fn get_next<S: PageStorage>(&self, pager: &Pager<S>) -> (r: Option<u64>)
        requires
            pager.wf(),
            self.section().valid(pager.store_view()),
        ensures
            r == self.section().next_in(pager.store_view()),
    {
        VarSection::Overflow(*self).get_next(pager)
    }

    /// Record `pid` as the next page.
    pub fn set_next<S: PageStorage>(&self, pager: &mut Pager<S>, pid: u64)
        requires
            old(pager).wf(),
            self.section().valid(old(pager).store_view()),
        ensures
            final(pager).wf(),
            final(pager).ids_view() == old(pager).ids_view(),
            final(pager).capacity_view() == old(pager).capacity_view(),
            final(pager).counter_view() == old(pager).counter_view(),
            final(pager).store_view() == put(old(pager).store_view(), self.page, self.section().next_pos(), le64(pid)),
    {
        VarSection::Overflow(*self).set_next(pager, pid)
    }

    /// Number of bytes held, as recorded.
    pub fn get_in_size<S: PageStorage>(&self, pager: &Pager<S>) -> (r: u16)
        requires
            pager.wf(),
            self.section().valid(pager.store_view()),
        ensures
            r == self.section().in_size_in(pager.store_view()),
    {
        VarSection::Overflow(*self).get_in_size(pager)
    }

    /// Record `size` as the number of bytes held.
    pub fn set_in_size<S: PageStorage>(&self, pager: &mut Pager<S>, size: u16)
        requires
            old(pager).wf(),
            self.section().valid(old(pager).store_view()),
        ensures
            final(pager).wf(),
            final(pager).ids_view() == old(pager).ids_view(),
            final(pager).capacity_view() == old(pager).capacity_view(),
            final(pager).counter_view() == old(pager).counter_view(),
            final(pager).store_view() == put(old(pager).store_view(), self.page, self.section().in_size_pos(), le16(size)),
    {
        VarSection::Overflow(*self).set_in_size(pager, size)
    }

    /// Raise the recorded number of bytes held to `size`, taken modulo 2^16, if it is larger.
    pub fn push_in_size_cursor<S: PageStorage>(&self, pager: &mut Pager<S>, size: usize)
        requires
            old(pager).wf(),
            self.section().valid(old(pager).store_view()),
        ensures
            final(pager).wf(),
            final(pager).ids_view() == old(pager).ids_view(),
            final(pager).capacity_view() == old(pager).capacity_view(),
            final(pager).counter_view() == old(pager).counter_view(),
            final(pager).store_view() == put(old(pager).store_view(), self.page, self.section().in_size_pos(),
                le16(if self.section().in_size_in(old(pager).store_view()) >= size as u16 {
                    self.section().in_size_in(old(pager).store_view())
                } else {
                    size as u16
                })),
    {
        VarSection::Overflow(*self).push_in_size_cursor(pager, size)
    }

    /// A copy of the body.
    pub fn deref_body<S: PageStorage>(&self, pager: &Pager<S>) -> (r: Vec<u8>)
        requires
            pager.wf(),
            self.section().valid(pager.store_view()),
        ensures
            r@ == self.section().body_in(pager.store_view()),
    {
        VarSection::Overflow(*self).deref_body(pager)
    }

    /// Write `data` in the body from `offset`.
    pub fn deref_mut_body<S: PageStorage>(&self, pager: &mut Pager<S>, offset: usize, data: &[u8])
        requires
            old(pager).wf(),
            self.section().valid(old(pager).store_view()),
            offset + data@.len() <= self.section().body_len(),
        ensures
            final(pager).wf(),
            final(pager).ids_view() == old(pager).ids_view(),
            final(pager).capacity_view() == old(pager).capacity_view(),
            final(pager).counter_view() == old(pager).counter_view(),
            final(pager).store_view() == put(old(pager).store_view(), self.page, self.section().body_start() + offset, data@),
    {
        VarSection::Overflow(*self).deref_mut_body(pager, offset, data)
    }

    pub fn get_id(&self) -> (r: u64)
        ensures
            r == self.page,
    {
        self.page
    }

    /// Drop the page from the pager.
    pub fn drop<S: PageStorage>(&self, pager: &mut Pager<S>) -> (r: Result<(), Error>)
        requires
            old(pager).wf(),
        ensures
            final(pager).wf(),
            final(pager).store_view() == (if old(pager).holds(self.page) {
                old(pager).store_view().remove(self.page)
            } else {
                old(pager).store_view()
            }),
            r is Ok <==> old(pager).holds(self.page),
    {
        crate::paging::pager::traits::Pager::drop_page(pager, &self.page)
    }
}

impl VarSource {
    /// The next page, as recorded.
    pub fn get_next<S: PageStorage>(&self, pager: &Pager<S>) -> (r: Option<u64>)
        requires
            pager.wf(),
            self.section().valid(pager.store_view()),
        ensures
            r == self.section().next_in(pager.store_view()),
    {
        VarSection::Source(*self).get_next(pager)
    }

    /// Record `pid` as the next page.
    pub fn set_next<S: PageStorage>(&self, pager: &mut Pager<S>, pid: u64)
        requires
            old(pager).wf(),
            self.section().valid(old(pager).store_view()),
        ensures
            final(pager).wf(),
            final(pager).ids_view() == old(pager).ids_view(),
            final(pager).capacity_view() == old(pager).capacity_view(),
            final(pager).counter_view() == old(pager).counter_view(),
            final(pager).store_view() == put(old(pager).store_view(), self.page, self.section().next_pos(), le64(pid)),
    {
        VarSection::Source(*self).set_next(pager, pid)
    }

    /// Number of bytes held, as recorded.
    pub fn get_in_size<S: PageStorage>(&self, pager: &Pager<S>) -> (r: u16)
        requires
            pager.wf(),
            self.section().valid(pager.store_view()),
        ensures
            r == self.section().in_size_in(pager.store_view()),
    {
        VarSection::Source(*self).get_in_size(pager)
    }

    /// Record `size` as the number of bytes held.
    pub fn set_in_size<S: PageStorage>(&self, pager: &mut Pager<S>, size: u16)
        requires
            old(pager).wf(),
            self.section().valid(old(pager).store_view()),
        ensures
            final(pager).wf(),
            final(pager).ids_view() == old(pager).ids_view(),
            final(pager).capacity_view() == old(pager).capacity_view(),
            final(pager).counter_view() == old(pager).counter_view(),
            final(pager).store_view() == put(old(pager).store_view(), self.page, self.section().in_size_pos(), le16(size)),
    {
        VarSection::Source(*self).set_in_size(pager, size)
    }

    /// Raise the recorded number of bytes held to `size`, taken modulo 2^16, if it is larger.
    pub fn push_in_size_cursor<S: PageStorage>(&self, pager: &mut Pager<S>, size: usize)
        requires
            old(pager).wf(),
            self.section().valid(old(pager).store_view()),
        ensures
            final(pager).wf(),
            final(pager).ids_view() == old(pager).ids_view(),
            final(pager).capacity_view() == old(pager).capacity_view(),
            final(pager).counter_view() == old(pager).counter_view(),
            final(pager).store_view() == put(old(pager).store_view(), self.page, self.section().in_size_pos(),
                le16(if self.section().in_size_in(old(pager).store_view()) >= size as u16 {
                    self.section().in_size_in(old(pager).store_view())
                } else {
                    size as u16
                })),
    {
        VarSection::Source(*self).push_in_size_cursor(pager, size)
    }

    /// A copy of the body.
    pub fn deref_body<S: PageStorage>(&self, pager: &Pager<S>) -> (r: Vec<u8>)
        requires
            pager.wf(),
            self.section().valid(pager.store_view()),
        ensures
            r@ == self.section().body_in(pager.store_view()),
    {
        VarSection::Source(*self).deref_body(pager)
    }

    /// Write `data` in the body from `offset`.
    pub fn deref_mut_body<S: PageStorage>(&self, pager: &mut Pager<S>, offset: usize, data: &[u8])
        requires
            old(pager).wf(),
            self.section().valid(old(pager).store_view()),
            offset + data@.len() <= self.section().body_len(),
        ensures
            final(pager).wf(),
            final(pager).ids_view() == old(pager).ids_view(),
            final(pager).capacity_view() == old(pager).capacity_view(),
            final(pager).counter_view() == old(pager).counter_view(),
            final(pager).store_view() == put(old(pager).store_view(), self.page, self.section().body_start() + offset, data@),
    {
        VarSection::Source(*self).deref_mut_body(pager, offset, data)
    }

    /// The total size of the variable, as recorded.
    pub fn get_size<S: PageStorage>(&self, pager: &Pager<S>) -> (r: u64)
        requires
            pager.wf(),
            self.section().valid(pager.store_view()),
        ensures
            r == self.size_in(pager.store_view()),
    {
        get_u64(pager, self.page, self.start + SOURCE_SIZE)
    }

    /// Record `size` as the total size of the variable.
    pub fn set_size<S: PageStorage>(&self, pager: &mut Pager<S>, size: u64)
        requires
            old(pager).wf(),
            self.section().valid(old(pager).store_view()),
        ensures
            final(pager).wf(),
            final(pager).ids_view() == old(pager).ids_view(),
            final(pager).capacity_view() == old(pager).capacity_view(),
            final(pager).counter_view() == old(pager).counter_view(),
            final(pager).store_view() == put(old(pager).store_view(), self.page, self.start + SOURCE_SIZE, le64(size)),
    {
        put_u64(pager, self.page, self.start + SOURCE_SIZE, size)
    }

    /// Raise the recorded total size to `size`, if it is larger.
    pub fn push_size_cursor<S: PageStorage>(&self, pager: &mut Pager<S>, size: u64)
        requires
            old(pager).wf(),
            self.section().valid(old(pager).store_view()),
        ensures
            final(pager).wf(),
            final(pager).ids_view() == old(pager).ids_view(),
            final(pager).capacity_view() == old(pager).capacity_view(),
            final(pager).counter_view() == old(pager).counter_view(),
            final(pager).store_view() == put(old(pager).store_view(), self.page, self.start + SOURCE_SIZE,
                le64(if self.size_in(old(pager).store_view()) >= size { self.size_in(old(pager).store_view()) } else { size })),
    {
        let current = self.get_size(pager);
        let s = if current >= size { current } else { size };
        self.set_size(pager, s)
    }
}

} // verus!

verus! {

/// Where a seek is counted from.
#[derive(Debug, Clone, Copy, PartialEq, Eq, Structural)]
pub enum SeekFrom {
    Start(u64),
    End(i64),
    Current(i64),
}

/// Walks the sections of a variable: its source, then the page its source
/// records as next.
#[derive(Debug, Clone, Copy, PartialEq, Eq, Structural)]
pub struct VarSectionIterator {
    pub head: VarSource,
    pub current: VarSection,
}

impl VarSectionIterator {
    pub fn new(source: VarSource) -> (r: Self)
        ensures
            r.head == source,
            r.current == VarSection::Source(source),
    {
        VarSectionIterator { head: source, current: VarSection::Source(source) }
    }

    pub fn borrow_current(&self) -> (r: &VarSection)
        ensures
            *r == self.current,
    {
        &self.current
    }

    pub fn borrow_mut_current(&mut self) -> (r: &mut VarSection)
        ensures
            *r == old(self).current,
            final(self).head == old(self).head,
            final(self).current == *final(r),
    {
        &mut self.current
    }

    pub fn borrow_head(&self) -> (r: &VarSource)
        ensures
            *r == self.head,
    {
        &self.head
    }

    pub fn borrow_mut_head(&mut self) -> (r: &mut VarSource)
        ensures
            *r == old(self).head,
            final(self).current == old(self).current,
            final(self).head == *final(r),
    {
        &mut self.head
    }

    /// Go back to the source.
    pub fn restart(&mut self)
        ensures
            final(self).head == old(self).head,
            final(self).current == VarSection::Source(old(self).head),
    {
        self.current = VarSection::Source(self.head);
    }

    /// Move to the page the source records as next, if it is held.
    pub fn next<S: PageStorage>(&mut self, pager: &Pager<S>) -> (r: Option<VarSection>)
        requires
            pager.wf(),
            old(self).head.section().valid(pager.store_view()),
        ensures
            final(self).head == old(self).head,
            match old(self).head.section().next_in(pager.store_view()) {
                Some(pid) => if pager.store_view().contains_key(pid) {
                    &&& final(self).current == VarSection::Overflow(OverflowPage { page: pid })
                    &&& r == Some(final(self).current)
                } else {
                    r is None && final(self).current == old(self).current
                },
                None => r is None && final(self).current == old(self).current,
            },
    {
        if let Some(pid) = self.head.get_next(pager) {
            match crate::paging::pager::traits::Pager::borrow_page(pager, &pid) {
                Ok(_) => {
                    self.current = VarSection::Overflow(OverflowPage { page: pid });
                    Some(self.current)
                },
                Err(_) => None,
            }
        } else {
            None
        }
    }
}

/// A stream over the sections of a variable: the section being written, the
/// position in it, and the position in the whole variable.
#[derive(Debug, Clone, Copy, PartialEq, Eq, Structural)]
pub struct VarStream {
    pub iterator: VarSectionIterator,
    pub section_cursor: u64,
    pub var_cursor: u64,
}

/// Where a seek lands, computed modulo 2^64: from the start, from the total
/// size, or from the current position.
pub open spec fn seek_dest(size: u64, var_cursor: u64, pos: SeekFrom) -> u64 {
    match pos {
        SeekFrom::Start(p) => p,
        SeekFrom::End(p) => vstd::wrapping::u64_specs::wrapping_sub(size, p as u64),
        SeekFrom::Current(p) => if p >= 0 {
            vstd::wrapping::u64_specs::wrapping_add(var_cursor, p as u64)
        } else {
            vstd::wrapping::u64_specs::wrapping_sub(var_cursor, p as u64)
        },
    }
}

/// Where a seek lands, for the positions a caller can reach without wrapping:
/// `Start(p)` lands at `p`; a forward step `Current(p)`, `p >= 0`, lands `p`
/// bytes after the current position, so never before it; `End(p)`,
/// `0 <= p <= size`, lands `p` bytes before the end.
pub proof fn lemma_seek_dest_lands(size: u64, var_cursor: u64, p: i64, q: u64)
    ensures
        seek_dest(size, var_cursor, SeekFrom::Start(q)) == q,
        p >= 0 && var_cursor + p <= u64::MAX ==> seek_dest(size, var_cursor, SeekFrom::Current(p)) == var_cursor + p,
        p >= 0 && var_cursor + p <= u64::MAX ==> seek_dest(size, var_cursor, SeekFrom::Current(p)) >= var_cursor,
        0 <= p <= size ==> seek_dest(size, var_cursor, SeekFrom::End(p)) == size - p,
{
}

/// The stream once walked to `dest`, and the answer, or `None` where the walk
/// would not end or would overflow the position.
pub open spec fn walk_spec(m: Map<u64, Seq<u8>>, st: VarStream, dest: u64) -> Option<(VarStream, Result<(), Error>)> {
    let head = st.iterator.head;
    let restarted = VarSectionIterator { head, current: VarSection::Source(head) };
    let c0 = st.var_cursor as int;
    let d = dest as int;
    let s0 = head.section().in_size_in(m) as int;
    let sc = st.section_cursor;
    if c0 == d {
        Some((VarStream { iterator: restarted, section_cursor: sc, var_cursor: st.var_cursor }, Ok(())))
    } else if c0 + s0 > u64::MAX {
        None
    } else if c0 <= d <= c0 + s0 {
        Some((VarStream { iterator: restarted, section_cursor: (d - c0) as u64, var_cursor: dest }, Ok(())))
    } else {
        let c1 = c0 + s0;
        match head.section().next_in(m) {
            Some(pid) if m.contains_key(pid) => {
                let ov = VarSection::Overflow(OverflowPage { page: pid });
                let it = VarSectionIterator { head, current: ov };
                let s1 = ov.in_size_in(m) as int;
                if c1 == d {
                    Some((VarStream { iterator: it, section_cursor: sc, var_cursor: dest }, Ok(())))
                } else if d < c1 || s1 == 0 {
                    None
                } else {
                    let last = c1 + ((d - c1 - 1) / s1) * s1;
                    if last + s1 > u64::MAX {
                        None
                    } else {
                        Some((VarStream { iterator: it, section_cursor: (d - last) as u64, var_cursor: dest }, Ok(())))
                    }
                }
            },
            _ => Some((VarStream { iterator: restarted, section_cursor: sc, var_cursor: c1 as u64 },
                Err(Error::IoError(IoError::UnexpectedEof)))),
        }
    }
}

/// Once a position `c1 + k * s1` is past `d`, `k` is the number of whole
/// steps of `s1` that fit before `d`.
proof fn lemma_last_step(c1: int, d: int, s1: int, k: int)
    requires
        s1 > 0,
        k >= 0,
        c1 + k * s1 < d <= c1 + k * s1 + s1,
    ensures
        (d - c1 - 1) / s1 == k,
{
    let x = d - c1 - 1;
    vstd::arithmetic::div_mod::lemma_fundamental_div_mod_converse(x, s1, k, x - k * s1);
}

/// A position `c1 + k * s1` before `d` is at most the last such position before `d`.
proof fn lemma_step_before_last(c1: int, d: int, s1: int, k: int)
    requires
        s1 > 0,
        k >= 0,
        c1 + k * s1 < d,
    ensures
        c1 + k * s1 <= c1 + ((d - c1 - 1) / s1) * s1,
{
    let x = d - c1 - 1;
    let q = x / s1;
    vstd::arithmetic::div_mod::lemma_fundamental_div_mod(x, s1);
    assert(x == s1 * q + x % s1);
    assert(0 <= x % s1 < s1);
    if k > q {
        assert(k * s1 >= (q + 1) * s1) by (nonlinear_arith)
            requires
                k >= q + 1,
                s1 > 0,
        ;
        assert((q + 1) * s1 == s1 * q + s1) by (nonlinear_arith);
        assert(false);
    }
    assert(k * s1 <= q * s1) by (nonlinear_arith)
        requires
            k <= q,
            s1 > 0,
    ;
}

impl VarStream {
    pub fn new(source: VarSource) -> (r: Self)
        ensures
            r.iterator.head == source,
            r.iterator.current == VarSection::Source(source),
            r.section_cursor == 0,
            r.var_cursor == 0,
    {
        VarStream { iterator: VarSectionIterator::new(source), section_cursor: 0, var_cursor: 0 }
    }

    /// Where a seek to `pos` lands, or an error if that lies past the total size.
    pub fn get_dest_cursor<S: PageStorage>(&self, pager: &Pager<S>, pos: SeekFrom) -> (r: Result<usize, Error>)
        requires
            pager.wf(),
            self.iterator.head.section().valid(pager.store_view()),
        ensures
            ({
                let size = self.iterator.head.size_in(pager.store_view());
                let dest = seek_dest(size, self.var_cursor, pos);
                if dest > size {
                    r == Err::<usize, Error>(Error::IoError(IoError::UnexpectedEof))
                } else {
                    r == Ok::<usize, Error>(dest as usize)
                }
            }),
    {
        let dest: u64 = match pos {
            SeekFrom::Start(p) => p,
            SeekFrom::End(p) => self.iterator.borrow_head().get_size(pager).wrapping_sub(p as u64),
            SeekFrom::Current(p) => {
                if p >= 0 {
                    self.var_cursor.wrapping_add(p as u64)
                } else {
                    self.var_cursor.wrapping_sub(p as u64)
                }
            },
        };
        let eos = self.iterator.borrow_head().get_size(pager);
        if dest > eos {
            return Err(Error::IoError(IoError::UnexpectedEof));
        }
        Ok(dest as usize)
    }

    /// Walk from the source to position `dest` of the variable.
    pub fn walk_to<S: PageStorage>(&mut self, pager: &Pager<S>, dest: usize) -> (r: Result<(), Error>)
        requires
            pager.wf(),
            old(self).iterator.head.section().valid(pager.store_view()),
            walk_spec(pager.store_view(), *old(self), dest as u64) is Some,
        ensures
            walk_spec(pager.store_view(), *old(self), dest as u64) == Some((*final(self), r)),
    {
        let ghost m = pager.store_view();
        let ghost h0 = old(self).iterator.head;
        let ghost c0 = old(self).var_cursor as int;
        let ghost sc0 = old(self).section_cursor;
        let ghost s0 = h0.section().in_size_in(m) as int;
        let ghost c1 = c0 + s0;
        let ghost mut last: int = 0;
        let ghost mut k: int = 0;
        self.iterator.restart();
        let d64 = dest as u64;
        let ghost d = d64 as int;
        while self.var_cursor != d64
            invariant
                pager.wf(),
                m == pager.store_view(),
                h0.section().valid(m),
                d == d64,
                d64 == dest as u64,
                walk_spec(m, *old(self), d64) is Some,
                h0 == old(self).iterator.head,
                c0 == old(self).var_cursor,
                sc0 == old(self).section_cursor,
                s0 == h0.section().in_size_in(m),
                c1 == c0 + s0,
                self.iterator.head == h0,
                self.iterator.current is Source ==> {
                    &&& self.iterator.current == VarSection::Source(h0)
                    &&& (self.var_cursor == c0 && self.section_cursor == sc0
                        || self.var_cursor == d && c0 != d && c0 <= d <= c0 + s0 && self.section_cursor == d - c0)
                },
                self.iterator.current is Overflow ==> {
                    let pid = self.iterator.current->Overflow_0.page;
                    let s1 = self.iterator.current.in_size_in(m) as int;
                    &&& h0.section().next_in(m) == Some(pid)
                    &&& m.contains_key(pid)
                    &&& !(c0 <= d <= c0 + s0)
                    &&& c0 != d
                    &&& c1 <= u64::MAX
                    &&& c1 <= d
                    &&& (c1 != d ==> s1 > 0 && c1 + ((d - c1 - 1) / s1) * s1 + s1 <= u64::MAX)
                    &&& k >= 0
                    &&& self.var_cursor <= d
                    &&& (self.var_cursor < d ==> self.var_cursor == c1 + k * s1 && self.section_cursor == sc0)
                    &&& (self.var_cursor == d ==> (k == 0 && c1 == d && self.section_cursor == sc0)
                        || (c1 < d && last == c1 + k * s1 && last < d <= last + s1 && self.section_cursor == d - last))
                },
            decreases
                (if self.iterator.current is Source { 1int } else { 0int }) + (if self.var_cursor <= d64 { d64 - self.var_cursor } else { 0int }),
        {
            proof {
                if self.iterator.current is Overflow {
                    let s1 = self.iterator.current.in_size_in(m) as int;
                    if self.var_cursor < d {
                        lemma_step_before_last(c1, d, s1, k);
                    }
                }
            }
            let in_size = self.iterator.borrow_current().get_in_size(pager) as u64;
            if self.var_cursor <= d64 && d64 <= self.var_cursor + in_size {
                proof { last = self.var_cursor as int; }
                self.section_cursor = d64 - self.var_cursor;
                self.var_cursor = d64;
            } else {
                let ghost was_source = self.iterator.current is Source;
                self.var_cursor = self.var_cursor + in_size;
                match self.iterator.next(pager) {
                    Some(_) => {
                        proof {
                            if was_source {
                                k = 0;
                            } else {
                                let s1 = self.iterator.current.in_size_in(m) as int;
                                assert(c1 + (k + 1) * s1 == c1 + k * s1 + s1) by (nonlinear_arith);
                                k = k + 1;
                            }
                        }
                    },
                    None => {
                        return Err(Error::IoError(IoError::UnexpectedEof));
                    },
                }
            }
        }
        proof {
            if self.iterator.current is Overflow {
                let s1 = self.iterator.current.in_size_in(m) as int;
                if c1 < d {
                    lemma_last_step(c1, d, s1, k);
                }
            }
        }
        Ok(())
    }
}

} // verus!

verus! {

/// Number of bytes a round of writing `buf` copies: what fits in the current
/// section from its cursor.
pub open spec fn round_written(st: VarStream, buf: Seq<u8>) -> int {
    let s = (st.section_cursor as usize) as int;
    let blen = st.iterator.current.body_len();
    if blen - s < buf.len() { blen - s } else { buf.len() as int }
}

/// A round of writing `buf` can run: the section cursor lies inside the
/// current section, and the cursors do not overflow.
pub open spec fn round_ok(st: VarStream, buf: Seq<u8>) -> bool {
    let s = (st.section_cursor as usize) as int;
    let w = round_written(st, buf);
    &&& s < st.iterator.current.body_len()
    &&& st.var_cursor + w <= u64::MAX
    &&& st.section_cursor + w <= u64::MAX
}

/// The pages after a round of writing `buf`: the bytes that fit copied into
/// the current section, the bytes it holds raised to the last position
/// written, and the total size raised to the new position in the variable.
pub open spec fn round_pages(m: Map<u64, Seq<u8>>, st: VarStream, buf: Seq<u8>) -> Map<u64, Seq<u8>> {
    let sec = st.iterator.current;
    let head = st.iterator.head;
    let s = (st.section_cursor as usize) as int;
    let w = round_written(st, buf);
    let m1 = put(m, sec.page_id(), sec.body_start() + s, buf.subrange(0, w));
    let cur_in = sec.in_size_in(m1);
    let cursor = (s + w - 1) as u16;
    let m2 = put(m1, sec.page_id(), sec.in_size_pos(), le16(if cur_in >= cursor { cur_in } else { cursor }));
    let vc = (st.var_cursor + w) as u64;
    let size = head.size_in(m2);
    put(m2, head.page, head.start + SOURCE_SIZE, le64(if size >= vc { size } else { vc }))
}

/// A round of writing never lowers the number of bytes the section it writes
/// in records as held: afterwards it is the larger of what the section
/// recorded before and the last position the round wrote in it.
pub proof fn lemma_write_round_keeps_in_size(m: Map<u64, Seq<u8>>, st: VarStream, buf: Seq<u8>)
    requires
        st.iterator.current.valid(m),
        st.iterator.head.section().valid(m),
        buf.len() > 0,
        round_ok(st, buf),
        st.iterator.current == st.iterator.head.section() || st.iterator.current.page_id() != st.iterator.head.page,
    ensures
        ({
            let sec = st.iterator.current;
            let last = (st.section_cursor as usize) as int + round_written(st, buf) - 1;
            let held = sec.in_size_in(round_pages(m, st, buf));
            &&& held >= sec.in_size_in(m)
            &&& held >= last
            &&& (held == sec.in_size_in(m) || held == last)
        }),
{
    lemma_le_roundtrip();
    let sec = st.iterator.current;
    let head = st.iterator.head;
    let s = (st.section_cursor as usize) as int;
    let w = round_written(st, buf);
    let m1 = put(m, sec.page_id(), sec.body_start() + s, buf.subrange(0, w));
    lemma_body_write(sec, m, s, buf.subrange(0, w));
    let cur_in = sec.in_size_in(m1);
    assert(cur_in == sec.in_size_in(m));
    let cursor = (s + w - 1) as u16;
    assert(0 <= s + w - 1 < PAGE_SIZE);
    assert(cursor == s + w - 1);
    let v: u16 = if cur_in >= cursor { cur_in } else { cursor };
    let m2 = put(m1, sec.page_id(), sec.in_size_pos(), le16(v));
    let p1 = m1[sec.page_id()];
    assert(p1.len() == PAGE_SIZE);
    lemma_splice_len(p1, sec.in_size_pos(), le16(v));
    assert(extract(m2[sec.page_id()], sec.in_size_pos(), 2) =~= le16(v));
    assert(sec.in_size_in(m2) == v);
    let vc = (st.var_cursor + w) as u64;
    let size = head.size_in(m2);
    let v2 = if size >= vc { size } else { vc };
    let m3 = put(m2, head.page, head.start + SOURCE_SIZE, le64(v2));
    assert(m3 == round_pages(m, st, buf));
    if sec.page_id() == head.page {
        let p2 = m2[sec.page_id()];
        lemma_splice_len(p2, head.start + SOURCE_SIZE, le64(v2));
        assert(extract(m3[sec.page_id()], sec.in_size_pos(), 2) =~= extract(p2, sec.in_size_pos(), 2));
    }
}

/// The stream after a round of writing `buf`: both cursors moved by what was copied.
pub open spec fn round_stream(st: VarStream, buf: Seq<u8>) -> VarStream {
    let w = round_written(st, buf);
    VarStream {
        iterator: st.iterator,
        section_cursor: (st.section_cursor + w) as u64,
        var_cursor: (st.var_cursor + w) as u64,
    }
}

/// The pager, the stream and the count returned once `buf` is written at the
/// stream's position, or `None` where the write would fail to run to its end.
/// After each round the stream moves to the page the source records as next,
/// or, when there is none, makes an overflow page, records it as next of the
/// current section and puts the section cursor back to 0; the round after
/// writes the first bytes of `buf` that did not fit.
pub open spec fn stream_write(
    m: Map<u64, Seq<u8>>,
    held: nat,
    cap: nat,
    ctr: u64,
    st: VarStream,
    buf: Seq<u8>,
) -> Option<(Map<u64, Seq<u8>>, nat, u64, VarStream, nat)>
    decreases buf.len(),
{
    if buf.len() == 0 {
        Some((m, held, ctr, st, 0))
    } else if !round_ok(st, buf) {
        None
    } else {
        let w = round_written(st, buf);
        let m3 = round_pages(m, st, buf);
        let st1 = round_stream(st, buf);
        let head = st.iterator.head;
        let rest = buf.subrange(0, buf.len() - w);
        match head.section().next_in(m3) {
            Some(pid) if m3.contains_key(pid) => {
                let st2 = VarStream {
                    iterator: VarSectionIterator { head, current: VarSection::Overflow(OverflowPage { page: pid }) },
                    ..st1
                };
                match stream_write(m3, held, cap, ctr, st2, rest) {
                    Some((m9, h9, c9, st9, n9)) => Some((m9, h9, c9, st9, w as nat + n9)),
                    None => None,
                }
            },
            _ => {
                if held >= cap || ctr == u64::MAX {
                    None
                } else {
                    let pid = (ctr + 1) as u64;
                    let sec = st.iterator.current;
                    let m5 = put(m3.insert(pid, fresh_page_bytes(pid, OVERFLOW_PAGE)), sec.page_id(), sec.next_pos(), le64(pid));
                    let st2 = VarStream { section_cursor: 0, ..st1 };
                    match stream_write(m5, held + 1, cap, pid, st2, rest) {
                        Some((m9, h9, c9, st9, n9)) => Some((m9, h9, c9, st9, w as nat + n9)),
                        None => None,
                    }
                }
            },
        }
    }
}

/// Make an overflow page.
fn new_overflow_page<S: PageStorage>(pager: &mut Pager<S>) -> (r: Result<OverflowPage, Error>)
    requires
        old(pager).wf(),
    ensures
        final(pager).wf(),
        final(pager).capacity_view() == old(pager).capacity_view(),
        old(pager).ids_view().len() < old(pager).capacity_view() && old(pager).counter_view() < u64::MAX ==> {
            let pid = (old(pager).counter_view() + 1) as u64;
            &&& r == Ok::<OverflowPage, Error>(OverflowPage { page: pid })
            &&& final(pager).counter_view() == pid
            &&& final(pager).ids_view().len() == old(pager).ids_view().len() + 1
            &&& final(pager).store_view() == old(pager).store_view().insert(pid, fresh_page_bytes(pid, OVERFLOW_PAGE))
        },
        !(old(pager).ids_view().len() < old(pager).capacity_view() && old(pager).counter_view() < u64::MAX) ==> r is Err,
{
    let pid = crate::paging::pager::traits::Pager::new_page(pager, OVERFLOW_PAGE)?;
    Ok(OverflowPage { page: pid })
}

impl VarStream {
    /// Move to position `pos`: fails if it lies past the total size, or if the walk there fails.
    pub fn seek<S: PageStorage>(&mut self, pager: &Pager<S>, pos: SeekFrom) -> (r: Result<u64, Error>)
        requires
            pager.wf(),
            old(self).iterator.head.section().valid(pager.store_view()),
            ({
                let size = old(self).iterator.head.size_in(pager.store_view());
                let dest = seek_dest(size, old(self).var_cursor, pos);
                dest <= size ==> walk_spec(pager.store_view(), *old(self), ((dest as usize) as u64)) is Some
            }),
        ensures
            ({
                let size = old(self).iterator.head.size_in(pager.store_view());
                let dest = seek_dest(size, old(self).var_cursor, pos);
                if dest > size {
                    r == Err::<u64, Error>(Error::IoError(IoError::UnexpectedEof)) && *final(self) == *old(self)
                } else {
                    let (st, w) = walk_spec(pager.store_view(), *old(self), ((dest as usize) as u64))->0;
                    &&& *final(self) == st
                    &&& w is Ok ==> r == Ok::<u64, Error>((dest as usize) as u64)
                    &&& w is Err ==> r == Err::<u64, Error>(w->Err_0)
                }
            }),
    {
        let dest = self.get_dest_cursor(pager, pos)?;
        self.walk_to(pager, dest)?;
        Ok(dest as u64)
    }

    /// One round of writing `buf`: copy what fits in the current section,
    /// then update the bytes it holds, the cursors and the total size.
    fn write_round<S: PageStorage>(&mut self, pager: &mut Pager<S>, buf: &[u8]) -> (written: usize)
        requires
            old(pager).wf(),
            old(self).iterator.head.section().valid(old(pager).store_view()),
            old(self).iterator.current.valid(old(pager).store_view()),
            buf@.len() > 0,
            round_ok(*old(self), buf@),
        ensures
            final(pager).wf(),
            final(pager).ids_view() == old(pager).ids_view(),
            final(pager).capacity_view() == old(pager).capacity_view(),
            final(pager).counter_view() == old(pager).counter_view(),
            final(pager).store_view() == round_pages(old(pager).store_view(), *old(self), buf@),
            *final(self) == round_stream(*old(self), buf@),
            written == round_written(*old(self), buf@),
            final(self).iterator.head.section().valid(final(pager).store_view()),
            final(self).iterator.current.valid(final(pager).store_view()),
    {
        let ghost m = pager.store_view();
        let section = *self.iterator.borrow_current();
        let head = *self.iterator.borrow_head();
        proof { lemma_store_page_size(pager); }
        let body = section.deref_body(pager);
        let sc = self.section_cursor as usize;
        let rem = body.len().wrapping_sub(sc);
        let written = if rem < buf.len() { rem } else { buf.len() };
        section.deref_mut_body(pager, sc, slice_subrange(buf, 0, written));
        let ghost m1 = pager.store_view();
        proof {
            lemma_put_keeps_valid(m, section.page_id(), section.body_start() + sc, buf@.subrange(0, written as int), section);
            lemma_put_keeps_valid(m, section.page_id(), section.body_start() + sc, buf@.subrange(0, written as int), head.section());
        }
        section.push_in_size_cursor(pager, sc + written - 1);
        let ghost m2 = pager.store_view();
        proof {
            lemma_le_roundtrip();
            let v = if section.in_size_in(m1) >= (sc + written - 1) as u16 { section.in_size_in(m1) } else { (sc + written - 1) as u16 };
            lemma_put_keeps_valid(m1, section.page_id(), section.in_size_pos(), le16(v), section);
            lemma_put_keeps_valid(m1, section.page_id(), section.in_size_pos(), le16(v), head.section());
        }
        self.var_cursor = self.var_cursor + written as u64;
        self.section_cursor = self.section_cursor + written as u64;
        head.push_size_cursor(pager, self.var_cursor);
        proof {
            let size = head.size_in(m2);
            let v = if size >= self.var_cursor { size } else { self.var_cursor };
            lemma_put_keeps_valid(m2, head.page, head.start + SOURCE_SIZE, le64(v), section);
            lemma_put_keeps_valid(m2, head.page, head.start + SOURCE_SIZE, le64(v), head.section());
        }
        written
    }

    /// Write `buf` from the position of the stream, and return how many bytes were written.
    pub fn write<S: PageStorage>(&mut self, pager: &mut Pager<S>, buf: &[u8]) -> (r: Result<usize, Error>)
        requires
            old(pager).wf(),
            old(self).iterator.head.section().valid(old(pager).store_view()),
            old(self).iterator.current.valid(old(pager).store_view()),
            stream_write(old(pager).store_view(), old(pager).ids_view().len(), old(pager).capacity_view(),
                old(pager).counter_view(), *old(self), buf@) is Some,
        ensures
            final(pager).wf(),
            final(pager).capacity_view() == old(pager).capacity_view(),
            final(self).iterator.head.section().valid(final(pager).store_view()),
            final(self).iterator.current.valid(final(pager).store_view()),
            r matches Ok(n) && n <= buf@.len() && stream_write(old(pager).store_view(), old(pager).ids_view().len(), old(pager).capacity_view(),
                old(pager).counter_view(), *old(self), buf@)
                == Some((final(pager).store_view(), final(pager).ids_view().len(), final(pager).counter_view(), *final(self), n as nat)),
        decreases buf@.len(),
    {
        if buf.len() == 0 {
            return Ok(0);
        }
        let written = self.write_round(pager, buf);
        let left = buf.len() - written;
        let right_buf = slice_subrange(buf, 0, left);
        if written > 0 {
            if self.iterator.next(pager).is_none() {
                let ghost m3 = pager.store_view();
                let ov = match new_overflow_page(pager) {
                    Ok(ov) => ov,
                    Err(_) => {
                        assert(false);
                        return Ok(written);
                    },
                };
                proof {
                    lemma_store_page_size(pager);
                    assert(m3.dom().subset_of(pager.store_view().dom()));
                }
                let section = *self.iterator.borrow_current();
                section.set_next(pager, ov.get_id());
                proof {
                    lemma_le_roundtrip();
                    let m4 = m3.insert(ov.page, fresh_page_bytes(ov.page, OVERFLOW_PAGE));
                    lemma_put_keeps_valid(m4, section.page_id(), section.next_pos(), le64(ov.page), section);
                    lemma_put_keeps_valid(m4, section.page_id(), section.next_pos(), le64(ov.page), self.iterator.head.section());
                }
                self.section_cursor = 0;
            } else {
                proof { lemma_store_page_size(pager); }
            }
            let rest = self.write(pager, right_buf)?;
            return Ok(written + rest);
        }
        Ok(written)
    }
}

} // verus!

verus! {

/// Bytes written somewhere else in a page leave a range of it unchanged.
proof fn lemma_put_elsewhere(m: Map<u64, Seq<u8>>, page: u64, pos: int, data: Seq<u8>, q: u64, off: int, len: int)
    requires
        m.contains_key(page),
        0 <= pos,
        pos + data.len() <= m[page].len(),
        0 <= off,
        0 <= len,
        off + len <= m[q].len(),
        q != page || off + len <= pos || pos + data.len() <= off,
    ensures
        put(m, page, pos, data).contains_key(q) == m.contains_key(q),
        put(m, page, pos, data)[q].subrange(off, off + len) == m[q].subrange(off, off + len),
{
    lemma_splice_len(m[page], pos, data);
    if q == page {
        assert(put(m, page, pos, data)[q].subrange(off, off + len) =~= m[q].subrange(off, off + len));
    }
}

/// Writing, from the cursor of the source, bytes that fit in it leaves them
/// in the body of the source at that place, and reports them all written.
pub proof fn lemma_stream_write_stores(m: Map<u64, Seq<u8>>, held: nat, cap: nat, ctr: u64, st: VarStream, buf: Seq<u8>)
    requires
        st.iterator.current == VarSection::Source(st.iterator.head),
        st.iterator.head.section().valid(m),
        buf.len() > 0,
        (st.section_cursor as usize) as int + buf.len() <= st.iterator.head.section().body_len(),
        forall|q: u64| #[trigger] m.contains_key(q) ==> q <= ctr,
        stream_write(m, held, cap, ctr, st, buf) is Some,
    ensures
        ({
            let (m9, h9, c9, st9, n9) = stream_write(m, held, cap, ctr, st, buf)->0;
            let sec = st.iterator.head.section();
            let at = sec.body_start() + (st.section_cursor as usize) as int;
            &&& n9 == buf.len()
            &&& m9[sec.page_id()].subrange(at, at + buf.len()) == buf
        }),
{
    reveal_with_fuel(stream_write, 2);
    lemma_le_roundtrip();
    let sec = st.iterator.current;
    let head = st.iterator.head;
    let s = (st.section_cursor as usize) as int;
    let w = round_written(st, buf);
    assert(w == buf.len());
    let at = sec.body_start() + s;
    let n = buf.len() as int;
    let m1 = put(m, sec.page_id(), at, buf.subrange(0, w));
    lemma_splice_len(m[sec.page_id()], at, buf);
    assert(m1[sec.page_id()].subrange(at, at + n) =~= buf);
    let cur_in = sec.in_size_in(m1);
    let cursor = (s + w - 1) as u16;
    let v = if cur_in >= cursor { cur_in } else { cursor };
    let m2 = put(m1, sec.page_id(), sec.in_size_pos(), le16(v));
    lemma_put_elsewhere(m1, sec.page_id(), sec.in_size_pos(), le16(v), sec.page_id(), at, n);
    let vc = (st.var_cursor + w) as u64;
    let size = head.size_in(m2);
    let v2 = if size >= vc { size } else { vc };
    let m3 = put(m2, head.page, head.start + SOURCE_SIZE, le64(v2));
    lemma_splice_len(m1[sec.page_id()], sec.in_size_pos(), le16(v));
    lemma_put_elsewhere(m2, head.page, head.start + SOURCE_SIZE, le64(v2), sec.page_id(), at, n);
    assert(m3 == round_pages(m, st, buf));
    assert(buf.subrange(0, buf.len() - w).len() == 0);
    lemma_splice_len(m2[sec.page_id()], head.start + SOURCE_SIZE, le64(v2));
    match head.section().next_in(m3) {
        Some(pid) if m3.contains_key(pid) => {},
        _ => {
            let pid = (ctr + 1) as u64;
            let m4 = m3.insert(pid, fresh_page_bytes(pid, OVERFLOW_PAGE));
            assert(m.contains_key(sec.page_id()));
            assert(m4[sec.page_id()] == m3[sec.page_id()]);
            lemma_put_elsewhere(m4, sec.page_id(), sec.next_pos(), le64(pid), sec.page_id(), at, n);
        },
    }
}

} // verus!
