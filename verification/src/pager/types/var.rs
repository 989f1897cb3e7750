//! Variable-length values: a header at a base offset of a page, the first
//! bytes of the value after it, and the rest in a chain of overflow pages.
use vstd::prelude::*;
use vstd::slice::slice_subrange;
use crate::io::{splice, extract, u64_at, u32_at, le64, le32, lemma_le_roundtrip, read_u64, read_u32, push_u64, push_u32, read_bytes, zeros, sat_usize, usize_saturating};
use crate::pager::id::{PageId, opt_page_id_raw, opt_page_id_of_raw, opt_page_id_storable, opt_page_id_to_raw, opt_page_id_from_raw};
use crate::pager::page::size::BlockSize;
use crate::pager::page::offset::PageOffset;
use crate::pager::error::{PagerError, PagerResult};
use crate::pager::traits::{Pager, pager_wf, pages_wf, page_exists, access_check, write_page_bytes, read_spec, MAX_PAGE_COUNT};
use crate::pager::overflow::{Overflow, chain_content, chain_within, lemma_chain_frame, pages_needed, OVERFLOW_DATA_OFFSET};

verus! {

/// Size of a value, in bytes.
#[derive(Debug, Clone, Copy, PartialEq, Eq, Structural)]
pub struct VarSize(pub u64);

impl VarSize {
    pub fn size_of() -> (r: u64)
        ensures
            r == 8,
    {
        8
    }
}

pub const VAR_HEADER_SIZE: u64 = 36;

#[derive(Debug, Clone, Copy, PartialEq, Eq, Structural)]
pub struct VarHeader {
    /// Size of the whole value.
    pub size: VarSize,
    /// First page of the chain holding what does not fit in the page.
    pub overflow: Option<PageId>,
    /// Number of bytes of the value held in the page.
    pub in_page_size: BlockSize,
    /// Where those bytes start, from the base of the value.
    pub in_page_ptr: PageOffset,
    /// Room for the value in the page.
    pub in_page_capacity: BlockSize,
}

pub open spec fn var_header_bytes(h: VarHeader) -> Seq<u8> {
    le64(h.size.0) + le64(opt_page_id_raw(h.overflow)) + le64(h.in_page_size.0) + le32(h.in_page_ptr.0)
        + le64(h.in_page_capacity.0)
}

pub open spec fn var_header_of_bytes(s: Seq<u8>) -> VarHeader {
    VarHeader {
        size: VarSize(u64_at(s, 0)),
        overflow: opt_page_id_of_raw(u64_at(s, 8)),
        in_page_size: BlockSize(u64_at(s, 16)),
        in_page_ptr: PageOffset(u32_at(s, 24)),
        in_page_capacity: BlockSize(u64_at(s, 28)),
    }
}

/// A stored value header reads back as itself, unless its overflow is `Some(PageId(0))`.
pub proof fn lemma_var_header_roundtrip(h: VarHeader)
    requires
        opt_page_id_storable(h.overflow),
    ensures
        var_header_bytes(h).len() == VAR_HEADER_SIZE,
        var_header_of_bytes(var_header_bytes(h)) == h,
{
    lemma_le_roundtrip();
    let s = var_header_bytes(h);
    assert(extract(s, 0, 8) =~= le64(h.size.0));
    assert(extract(s, 8, 8) =~= le64(opt_page_id_raw(h.overflow)));
    assert(extract(s, 16, 8) =~= le64(h.in_page_size.0));
    assert(extract(s, 24, 4) =~= le32(h.in_page_ptr.0));
    assert(extract(s, 28, 8) =~= le64(h.in_page_capacity.0));
}

impl VarHeader {
    pub fn size_of() -> (r: u64)
        ensures
            r == VAR_HEADER_SIZE,
    {
        VarSize::size_of() + PageId::size_of() + BlockSize::size_of() + PageOffset::size_of() + BlockSize::size_of()
    }

    pub fn to_bytes(&self) -> (out: Vec<u8>)
        ensures
            out@ == var_header_bytes(*self),
    {
        let mut out: Vec<u8> = Vec::new();
        push_u64(&mut out, self.size.0);
        push_u64(&mut out, opt_page_id_to_raw(self.overflow));
        push_u64(&mut out, self.in_page_size.0);
        push_u32(&mut out, self.in_page_ptr.0);
        push_u64(&mut out, self.in_page_capacity.0);
        out
    }

    pub fn from_bytes(bytes: &[u8]) -> (r: Self)
        requires
            bytes@.len() >= VAR_HEADER_SIZE,
        ensures
            r == var_header_of_bytes(bytes@),
    {
        VarHeader {
            size: VarSize(read_u64(bytes, 0)),
            overflow: opt_page_id_from_raw(read_u64(bytes, 8)),
            in_page_size: BlockSize(read_u64(bytes, 16)),
            in_page_ptr: PageOffset(read_u32(bytes, 24)),
            in_page_capacity: BlockSize(read_u64(bytes, 28)),
        }
    }
}

/// `a + b` on 32 bits, wrapping around.
pub open spec fn wrap32(a: u32, b: u32) -> u32 {
    if a + b <= u32::MAX { (a + b) as u32 } else { (a + b - 0x1_0000_0000) as u32 }
}

/// The value a header at `base` of page `id` describes: its bytes in the
/// page, then the content of its overflow chain.
pub open spec fn var_fetch_spec(pages: Seq<Seq<u8>>, page_size: nat, id: PageId, base: u32, h: VarHeader) -> PagerResult<Seq<u8>> {
    let off = wrap32(base, h.in_page_ptr.0);
    match read_spec(pages, page_size, id, off as int, sat_usize(h.in_page_size.0)) {
        Err(e) => Err(e),
        Ok(in_page) => match h.overflow {
            None => Ok(in_page),
            Some(ov) => match chain_content(pages, page_size, ov.0) {
                Ok(rest) => Ok(in_page + rest),
                Err(e) => Err(e),
            },
        },
    }
}

/// The header stored at `base` of page `id` and the value it describes.
pub open spec fn var_load_spec(pages: Seq<Seq<u8>>, page_size: nat, id: PageId, base: u32) -> PagerResult<(VarHeader, Seq<u8>)> {
    match read_spec(pages, page_size, id, base as int, VAR_HEADER_SIZE as int) {
        Err(e) => Err(e),
        Ok(hb) => {
            let h = var_header_of_bytes(hb);
            match var_fetch_spec(pages, page_size, id, base, h) {
                Ok(v) => Ok((h, v)),
                Err(e) => Err(e),
            }
        },
    }
}

/// A value stored at a base offset of a page, with its bytes held in memory.
pub struct Var {
    page_id: PageId,
    base: PageOffset,
    header: VarHeader,
    buffer: Vec<u8>,
}

impl Var {
    pub closed spec fn page_id_view(&self) -> PageId {
        self.page_id
    }

    pub closed spec fn base_view(&self) -> PageOffset {
        self.base
    }

    pub closed spec fn header_view(&self) -> VarHeader {
        self.header
    }

    /// The bytes of the value held in memory.
    pub closed spec fn buffer_view(&self) -> Seq<u8> {
        self.buffer@
    }

    /// An empty value at `base` of page `page_id`, with `capacity` bytes of
    /// the page for its header and first bytes.
    pub fn new(page_id: PageId, base: PageOffset, capacity: BlockSize) -> (r: Self)
        requires
            VAR_HEADER_SIZE <= capacity.0,
        ensures
            r.page_id_view() == page_id,
            r.base_view() == base,
            r.header_view() == (VarHeader {
                size: VarSize(0),
                overflow: None,
                in_page_size: BlockSize(0),
                in_page_ptr: PageOffset(VAR_HEADER_SIZE as u32),
                in_page_capacity: BlockSize((capacity.0 - VAR_HEADER_SIZE) as u64),
            }),
            r.buffer_view() == Seq::<u8>::empty(),
    {
        let header = VarHeader {
            size: VarSize(0),
            overflow: None,
            in_page_size: BlockSize(0),
            in_page_ptr: PageOffset(VarHeader::size_of() as u32),
            in_page_capacity: BlockSize(capacity.0 - VarHeader::size_of()),
        };
        Var { page_id, base, header, buffer: Vec::new() }
    }

    /// Replace the bytes of the value.
    pub fn set(&mut self, content: &[u8])
        ensures
            final(self).buffer_view() == content@,
            final(self).page_id_view() == old(self).page_id_view(),
            final(self).base_view() == old(self).base_view(),
            final(self).header_view() == old(self).header_view(),
    {
        self.buffer = read_bytes(content, 0, content.len());
        assert(self.buffer@ =~= content@);
    }

    /// The bytes of the value.
    pub fn get(&self) -> (r: Vec<u8>)
        ensures
            r@ == self.buffer_view(),
    {
        let r = read_bytes(self.buffer.as_slice(), 0, self.buffer.len());
        assert(r@ =~= self.buffer@);
        r
    }

    /// Where the first bytes of the value lie in the page.
    fn offset(&self) -> (r: PageOffset)
        ensures
            r.0 == wrap32(self.base.0, self.header.in_page_ptr.0),
    {
        self.base.add(self.header.in_page_ptr)
    }

    /// Read the value described by the header in memory.
    pub fn fetch<P: Pager>(&mut self, pager: &P) -> (r: PagerResult<()>)
        requires
            pager_wf(*pager),
        ensures
            final(self).page_id_view() == old(self).page_id_view(),
            final(self).base_view() == old(self).base_view(),
            final(self).header_view() == old(self).header_view(),
            match var_fetch_spec(pager.pages_view(), pager.page_size_view(), old(self).page_id_view(), old(self).base_view().0, old(self).header_view()) {
                Ok(v) => r is Ok && final(self).buffer_view() == v,
                Err(e) => r == Err::<(), PagerError>(e) && final(self).buffer_view() == old(self).buffer_view(),
            },
    {
        let len = usize_saturating(self.header.in_page_size.0);
        let mut data = pager.read_from_page(&self.page_id, self.offset().to_u64(), len)?;
        match self.header.overflow {
            Some(overflow_pg_id) => {
                let rest = Overflow::read(pager, &overflow_pg_id)?;
                data.extend_from_slice(rest.as_slice());
            },
            None => {},
        }
        self.buffer = data;
        Ok(())
    }

    /// Load the value whose header lies at `base` of page `page_id`.
    pub fn load<P: Pager>(page_id: PageId, base: PageOffset, pager: &P) -> (r: PagerResult<Self>)
        requires
            pager_wf(*pager),
        ensures
            match r {
                Ok(v) => {
                    &&& var_load_spec(pager.pages_view(), pager.page_size_view(), page_id, base.0)
                        == Ok::<(VarHeader, Seq<u8>), PagerError>((v.header_view(), v.buffer_view()))
                    &&& v.page_id_view() == page_id
                    &&& v.base_view() == base
                },
                Err(e) => var_load_spec(pager.pages_view(), pager.page_size_view(), page_id, base.0) == Err::<(VarHeader, Seq<u8>), PagerError>(e),
            },
    {
        let bytes = pager.read_from_page(&page_id, base.to_u64(), VarHeader::size_of() as usize)?;
        let header = VarHeader::from_bytes(bytes.as_slice());
        let mut var = Var { page_id, base, header, buffer: Vec::new() };
        var.fetch(pager)?;
        Ok(var)
    }

    /// Write the first bytes of the value in the page and the rest in a new
    /// overflow chain, and record both in the header held in memory.
    fn write<P: Pager>(&mut self, pager: &mut P) -> (r: PagerResult<()>)
        requires
            pager_wf(*old(pager)),
        ensures
            pager_wf(*final(pager)),
            final(pager).page_size_view() == old(pager).page_size_view(),
            final(self).page_id == old(self).page_id,
            final(self).base == old(self).base,
            final(self).buffer@ == old(self).buffer@,
            !page_exists(old(pager).pages_view(), old(self).page_id) ==> r == Err::<(), PagerError>(PagerError::PageNotOpened(old(self).page_id)),
            ({
                let ps = old(pager).page_size_view();
                let h0 = old(self).header;
                let n = old(self).buffer@.len();
                let cap = sat_usize(h0.in_page_capacity.0);
                let m = if n <= cap { n as int } else { cap };
                page_exists(old(pager).pages_view(), old(self).page_id)
                    && wrap32(old(self).base.0, h0.in_page_ptr.0) + cap <= ps
                    && (m < n ==> ps > OVERFLOW_DATA_OFFSET
                        && old(pager).pages_view().len() + pages_needed((n - m) as nat, (ps - OVERFLOW_DATA_OFFSET) as nat) <= MAX_PAGE_COUNT)
                    ==> r is Ok
            }),
            r is Ok ==> {
                let pages = old(pager).pages_view();
                let ps = old(pager).page_size_view();
                let h0 = old(self).header;
                let n = old(self).buffer@.len();
                let cap = sat_usize(h0.in_page_capacity.0);
                let m = if n <= cap { n as int } else { cap };
                let off = wrap32(old(self).base.0, h0.in_page_ptr.0);
                let mid = write_page_bytes(pages, old(self).page_id, off as int,
                    old(self).buffer@.subrange(0, m) + Seq::new((cap - m) as nat, |i: int| 0u8));
                let fin = final(pager).pages_view();
                let big = pages.len();
                &&& access_check(pages, ps, old(self).page_id, off as int, cap) is Ok
                &&& fin.len() >= big
                &&& forall|i: int| 1 <= i < big ==> #[trigger] fin[i] == mid[i]
                &&& forall|k: int| 0 <= k < ps && !(16 <= k < 24) ==> #[trigger] fin[0][k] == mid[0][k]
                &&& final(self).header == (VarHeader {
                    size: VarSize(n as u64),
                    overflow: if m < n { Some(PageId(big as u64)) } else { None },
                    in_page_size: BlockSize(m as u64),
                    in_page_ptr: h0.in_page_ptr,
                    in_page_capacity: h0.in_page_capacity,
                })
                &&& m < n ==> chain_content(fin, ps, big as u64) == Ok::<Seq<u8>, PagerError>(old(self).buffer@.subrange(m, n as int))
                &&& m < n ==> chain_within(fin, big as u64, fin.len(), big)
                &&& m >= n ==> fin == mid
            },
    {
        let cap = usize_saturating(self.header.in_page_capacity.0);
        let n = self.buffer.len();
        let m: usize = if n <= cap { n } else { cap };
        let mut in_page = read_bytes(self.buffer.as_slice(), 0, m);
        let pad = zeros(cap - m);
        in_page.extend_from_slice(pad.as_slice());
        assert(in_page@ =~= self.buffer@.subrange(0, m as int) + Seq::new((cap - m) as nat, |i: int| 0u8));
        self.header.in_page_size = BlockSize(m as u64);
        self.header.size = VarSize(n as u64);
        let off = self.offset();
        pager.write_all_to_page(&self.page_id, in_page.as_slice(), off.to_u64())?;
        let ghost mid = pager.pages_view();
        let rest = slice_subrange(self.buffer.as_slice(), m, n);
        let ov = Overflow::write(pager, rest)?;
        self.header.overflow = ov;
        proof {
            let fin = pager.pages_view();
            assert forall|k: int| 0 <= k < pager.page_size_view() && !(16 <= k < 24) implies #[trigger] fin[0][k] == mid[0][k] by {}
        }
        Ok(())
    }

    /// Store the value in the page: its first bytes after the header, the rest
    /// in a new overflow chain, then the header at the base of the value.
    pub fn flush<P: Pager>(&mut self, pager: &mut P) -> (r: PagerResult<()>)
        requires
            pager_wf(*old(pager)),
        ensures
            pager_wf(*final(pager)),
            final(pager).page_size_view() == old(pager).page_size_view(),
            final(self).page_id_view() == old(self).page_id_view(),
            final(self).base_view() == old(self).base_view(),
            final(self).buffer_view() == old(self).buffer_view(),
            !page_exists(old(pager).pages_view(), old(self).page_id_view()) ==> r == Err::<(), PagerError>(PagerError::PageNotOpened(old(self).page_id_view())),
            ({
                let ps = old(pager).page_size_view();
                let h0 = old(self).header_view();
                let n = old(self).buffer_view().len();
                let cap = sat_usize(h0.in_page_capacity.0);
                let m = if n <= cap { n as int } else { cap };
                page_exists(old(pager).pages_view(), old(self).page_id_view())
                    && wrap32(old(self).base_view().0, h0.in_page_ptr.0) + cap <= ps
                    && old(self).base_view().0 + VAR_HEADER_SIZE <= ps
                    && (m < n ==> ps > OVERFLOW_DATA_OFFSET
                        && old(pager).pages_view().len() + pages_needed((n - m) as nat, (ps - OVERFLOW_DATA_OFFSET) as nat) <= MAX_PAGE_COUNT)
                    ==> r is Ok
            }),
            r is Ok ==> {
                let h0 = old(self).header_view();
                let n = old(self).buffer_view().len();
                let cap = sat_usize(h0.in_page_capacity.0);
                let m = if n <= cap { n as int } else { cap };
                &&& final(self).header_view() == (VarHeader {
                    size: VarSize(n as u64),
                    overflow: if m < n { Some(PageId(old(pager).pages_view().len() as u64)) } else { None },
                    in_page_size: BlockSize(m as u64),
                    in_page_ptr: h0.in_page_ptr,
                    in_page_capacity: h0.in_page_capacity,
                })
                &&& (VAR_HEADER_SIZE <= h0.in_page_ptr.0 && old(self).base_view().0 + h0.in_page_ptr.0 <= u32::MAX) ==>
                    var_load_spec(final(pager).pages_view(), final(pager).page_size_view(), old(self).page_id_view(), old(self).base_view().0)
                        == Ok::<(VarHeader, Seq<u8>), PagerError>((final(self).header_view(), old(self).buffer_view()))
            },
    {
        self.write(pager)?;
        let ghost w = pager.pages_view();
        let hb = self.header.to_bytes();
        proof {
            lemma_le_roundtrip();
            assert(hb@.len() == VAR_HEADER_SIZE);
            assert(w.len() >= old(pager).pages_view().len());
        }
        let res = pager.write_all_to_page(&self.page_id, hb.as_slice(), self.base.to_u64());
        proof {
            if res is Ok && VAR_HEADER_SIZE <= old(self).header.in_page_ptr.0 && old(self).base.0 + old(self).header.in_page_ptr.0 <= u32::MAX {
                let pages = old(pager).pages_view();
                let ps = old(pager).page_size_view();
                let big = pages.len();
                let h = self.header;
                let id = self.page_id;
                let base = self.base.0 as int;
                let off = base + h.in_page_ptr.0;
                let n = self.buffer@.len();
                let m = h.in_page_size.0 as int;
                let fin = pager.pages_view();
                lemma_var_header_roundtrip(h);
                assert(extract(fin[id.0 as int], base, VAR_HEADER_SIZE as int) =~= hb@);
                assert(extract(fin[id.0 as int], off, m) =~= self.buffer@.subrange(0, m)) by {
                    assert forall|k: int| off <= k < off + m implies fin[id.0 as int][k] == self.buffer@[k - off] by {
                        assert(fin[id.0 as int][k] == w[id.0 as int][k]);
                    }
                }
                if m < n {
                    lemma_chain_frame(w, fin, ps, big as u64, w.len(), big);
                    assert(self.buffer@.subrange(0, m) + self.buffer@.subrange(m, n as int) =~= self.buffer@);
                } else {
                    assert(self.buffer@.subrange(0, m) =~= self.buffer@);
                }
            }
        }
        res
    }
}

} // verus!
