//! Values too long for their page continue in a chain of overflow pages.
//! After its page header, an overflow page holds the identifier of the next
//! page of the chain (0 for none), the number of bytes it holds, then those bytes.
use vstd::prelude::*;
use vstd::bytes::u64_to_le_bytes;
use vstd::slice::slice_subrange;
use crate::io::{splice, extract, u64_at, le64, lemma_le_roundtrip, read_u64};
use crate::pager::id::PageId;
use crate::pager::error::{PagerError, PagerResult};
use crate::pager::page::page_type::{PageType, page_type_byte, page_type_of_byte};
use crate::pager::traits::{
    Pager, pager_wf, pages_wf, page_exists, stored_type, type_check, write_page_bytes, fresh_page,
    page_appended, MAX_PAGE_COUNT, PAGE_COUNT_OFFSET, FREE_HEAD_OFFSET,
};

verus! {

pub const OVERFLOW_NEXT_OFFSET: u64 = 19;

pub const OVERFLOW_LEN_OFFSET: u64 = 27;

pub const OVERFLOW_DATA_OFFSET: u64 = 35;

/// Writes and reads chains of overflow pages.
pub struct Overflow;

/// What a chain holds from page `id` on, following at most `fuel` pages,
/// or the error met on the way.
pub open spec fn chain_read(pages: Seq<Seq<u8>>, page_size: nat, id: u64, fuel: nat) -> PagerResult<Seq<u8>>
    decreases fuel,
{
    if fuel == 0 {
        Err(PagerError::PageOverflow)
    } else {
        match type_check(pages, PageId(id), PageType::Overflow) {
            Err(e) => Err(e),
            Ok(_) => {
                let p = pages[id as int];
                let n = u64_at(p, OVERFLOW_LEN_OFFSET as int);
                if n + OVERFLOW_DATA_OFFSET > page_size {
                    Err(PagerError::PageOverflow)
                } else {
                    let data = extract(p, OVERFLOW_DATA_OFFSET as int, n as int);
                    let next = u64_at(p, OVERFLOW_NEXT_OFFSET as int);
                    if next == 0 {
                        Ok(data)
                    } else {
                        prepend(data, chain_read(pages, page_size, next, (fuel - 1) as nat))
                    }
                }
            },
        }
    }
}

pub open spec fn prepend(data: Seq<u8>, r: PagerResult<Seq<u8>>) -> PagerResult<Seq<u8>> {
    match r {
        Ok(v) => Ok(data + v),
        Err(e) => Err(e),
    }
}

/// Every page the chain from `id` goes through, within `fuel` pages, has an identifier of at least `lo`.
pub open spec fn chain_within(pages: Seq<Seq<u8>>, id: u64, fuel: nat, lo: nat) -> bool
    decreases fuel,
{
    &&& id >= lo
    &&& (fuel == 0 || !page_exists(pages, PageId(id)) || {
        let next = u64_at(pages[id as int], OVERFLOW_NEXT_OFFSET as int);
        next == 0 || chain_within(pages, next, (fuel - 1) as nat, lo)
    })
}

/// A chain that only goes through pages from `lo` on reads the same from
/// two page sets that agree on those pages.
pub proof fn lemma_chain_frame(p1: Seq<Seq<u8>>, p2: Seq<Seq<u8>>, page_size: nat, id: u64, fuel: nat, lo: nat)
    requires
        p1.len() == p2.len(),
        forall|k: int| lo <= k < p1.len() ==> #[trigger] p1[k] == p2[k],
        chain_within(p1, id, fuel, lo),
    ensures
        chain_read(p1, page_size, id, fuel) == chain_read(p2, page_size, id, fuel),
        chain_within(p2, id, fuel, lo),
    decreases fuel,
{
    if fuel > 0 && page_exists(p1, PageId(id)) {
        assert(p1[id as int] == p2[id as int]);
        let next = u64_at(p1[id as int], OVERFLOW_NEXT_OFFSET as int);
        if next != 0 {
            lemma_chain_frame(p1, p2, page_size, next, (fuel - 1) as nat, lo);
        }
    }
}

/// The content of the chain starting at `id`, followed through at most as many pages as there are.
pub open spec fn chain_content(pages: Seq<Seq<u8>>, page_size: nat, id: u64) -> PagerResult<Seq<u8>> {
    chain_read(pages, page_size, id, pages.len())
}

/// Number of overflow pages needed to hold `n` bytes, `cap` bytes per page.
pub open spec fn pages_needed(n: nat, cap: nat) -> nat
    recommends
        cap > 0,
{
    if n == 0 { 0 } else { ((n - 1) as int / cap as int + 1) as nat }
}

/// Page `page` is the `j`-th of a chain written from page `first`: it holds
/// `data[start..end]`, and points to the next page unless `end` is the end of `data`.
pub open spec fn chain_page(page: Seq<u8>, first: u64, j: int, data: Seq<u8>, start: int, end: int) -> bool {
    &&& stored_type(page) == PageType::Overflow
    &&& u64_at(page, OVERFLOW_LEN_OFFSET as int) == end - start
    &&& extract(page, OVERFLOW_DATA_OFFSET as int, end - start) == data.subrange(start, end)
    &&& u64_at(page, OVERFLOW_NEXT_OFFSET as int) == (if end < data.len() { first + j + 1 } else { 0 })
}

proof fn lemma_chain_suffix(pages: Seq<Seq<u8>>, page_size: nat, first: u64, k: int, bounds: Seq<int>, data: Seq<u8>, j: int, fuel: nat)
    requires
        pages_wf(pages, page_size),
        1 <= first,
        first + k <= pages.len(),
        0 <= j < k,
        fuel >= k - j,
        bounds.len() == k + 1,
        bounds[k] == data.len(),
        forall|i: int| 0 <= i < k ==> #[trigger] bounds[i] < bounds[i + 1],
        forall|i: int| 0 <= i < k ==> #[trigger] bounds[i] < data.len(),
        forall|i: int| 0 <= i <= k ==> 0 <= #[trigger] bounds[i] <= data.len(),
        forall|i: int| 0 <= i < k ==> #[trigger] bounds[i + 1] - bounds[i] + OVERFLOW_DATA_OFFSET <= page_size,
        forall|i: int| 0 <= i < k ==> chain_page(#[trigger] pages[first + i], first, i, data, bounds[i], bounds[i + 1]),
    ensures
        chain_read(pages, page_size, (first + j) as u64, fuel) == Ok::<Seq<u8>, PagerError>(data.subrange(bounds[j], data.len() as int)),
        chain_within(pages, (first + j) as u64, fuel, first as nat),
    decreases k - j,
{
    let id = (first + j) as u64;
    let p = pages[first + j];
    assert(chain_page(pages[first + j], first, j, data, bounds[j], bounds[j + 1]));
    assert(bounds[j + 1] - bounds[j] + OVERFLOW_DATA_OFFSET <= page_size);
    if bounds[j + 1] < data.len() {
        lemma_chain_suffix(pages, page_size, first, k, bounds, data, j + 1, (fuel - 1) as nat);
        assert(data.subrange(bounds[j], bounds[j + 1]) + data.subrange(bounds[j + 1], data.len() as int)
            =~= data.subrange(bounds[j], data.len() as int));
    } else {
        assert(j == k - 1);
    }
}

proof fn lemma_pages_needed_exact(n: nat, cap: nat, w: nat)
    requires
        cap > 0,
        n > 0,
        w > 0,
        (w - 1) * cap < n,
        n <= w * cap,
    ensures
        pages_needed(n, cap) == w,
{
    let q = (n - 1) as int / cap as int;
    assert(q == w - 1) by (nonlinear_arith)
        requires
            cap > 0,
            n > 0,
            w > 0,
            (w - 1) * cap < n,
            n <= w * cap,
            q == (n - 1) as int / cap as int,
    ;
}

proof fn lemma_pages_needed_more(n: nat, cap: nat, w: nat)
    requires
        cap > 0,
        w * cap < n,
    ensures
        w < pages_needed(n, cap),
{
    let q = (n - 1) as int / cap as int;
    assert(w <= q) by (nonlinear_arith)
        requires
            cap > 0,
            w * cap < n,
            q == (n - 1) as int / cap as int,
    ;
}

impl Overflow {
    /// Store `data` in a chain of new overflow pages and return its first page;
    /// `None` when `data` is empty. Pages are made one by one, so a failure
    /// may leave some of them behind.
    pub fn write<P: Pager>(pager: &mut P, data: &[u8]) -> (r: PagerResult<Option<PageId>>)
        requires
            pager_wf(*old(pager)),
        ensures
            pager_wf(*final(pager)),
            final(pager).page_size_view() == old(pager).page_size_view(),
            final(pager).pages_view().len() >= old(pager).pages_view().len(),
            forall|i: int| 1 <= i < old(pager).pages_view().len() ==> #[trigger] final(pager).pages_view()[i] == old(pager).pages_view()[i],
            forall|k: int| 0 <= k < old(pager).page_size_view() && !(PAGE_COUNT_OFFSET <= k < PAGE_COUNT_OFFSET + 8)
                ==> #[trigger] final(pager).pages_view()[0][k] == old(pager).pages_view()[0][k],
            data@.len() == 0 ==> r == Ok::<Option<PageId>, PagerError>(None) && final(pager).pages_view() == old(pager).pages_view(),
            data@.len() > 0 && old(pager).page_size_view() <= OVERFLOW_DATA_OFFSET ==>
                r == Err::<Option<PageId>, PagerError>(PagerError::PageOverflow) && final(pager).pages_view() == old(pager).pages_view(),
            data@.len() > 0 && old(pager).page_size_view() > OVERFLOW_DATA_OFFSET ==> {
                let needed = pages_needed(data@.len(), (old(pager).page_size_view() - OVERFLOW_DATA_OFFSET) as nat);
                &&& old(pager).pages_view().len() + needed <= MAX_PAGE_COUNT ==> {
                    &&& r == Ok::<Option<PageId>, PagerError>(Some(PageId(old(pager).pages_view().len() as u64)))
                    &&& chain_content(final(pager).pages_view(), final(pager).page_size_view(), old(pager).pages_view().len() as u64)
                        == Ok::<Seq<u8>, PagerError>(data@)
                    &&& chain_within(final(pager).pages_view(), old(pager).pages_view().len() as u64,
                        final(pager).pages_view().len(), old(pager).pages_view().len())
                }
                &&& old(pager).pages_view().len() + needed > MAX_PAGE_COUNT ==> r is Err
                &&& r is Err ==> r == Err::<Option<PageId>, PagerError>(PagerError::PageFull(PageId(MAX_PAGE_COUNT)))
            },
    {
        let n = data.len();
        if n == 0 {
            return Ok(None);
        }
        let page_size = pager.get_page_size();
        if page_size <= OVERFLOW_DATA_OFFSET {
            return Err(PagerError::PageOverflow);
        }
        let cap = (page_size - OVERFLOW_DATA_OFFSET) as usize;
        let ghost first = old(pager).pages_view().len();
        let ghost mut bounds: Seq<int> = seq![0int];
        let mut pos: usize = 0;
        let mut written: u64 = 0;
        let mut first_id: u64 = 0;
        proof { lemma_le_roundtrip(); }
        while pos < n
            invariant
                pager_wf(*pager),
                pager.page_size_view() == page_size,
                page_size == old(pager).page_size_view(),
                page_size > OVERFLOW_DATA_OFFSET,
                cap == page_size - OVERFLOW_DATA_OFFSET,
                n == data@.len(),
                0 < n,
                pos <= n,
                first == old(pager).pages_view().len(),
                1 <= first,
                pager.pages_view().len() == first + written,
                bounds.len() == written + 1,
                bounds[0] == 0,
                bounds[written as int] == pos,
                written == 0 ==> pos == 0,
                forall|i: int| 0 <= i < written ==> #[trigger] bounds[i] < bounds[i + 1],
                forall|i: int| 0 <= i < written ==> #[trigger] bounds[i] < n,
                forall|i: int| 0 <= i <= written ==> 0 <= #[trigger] bounds[i] <= n,
                forall|i: int| 0 <= i < written ==> #[trigger] bounds[i + 1] - bounds[i] + OVERFLOW_DATA_OFFSET <= page_size,
                forall|i: int| 0 <= i < written ==> #[trigger] bounds[i + 1] - bounds[i] == cap || bounds[i + 1] == n,
                forall|i: int| 0 <= i < written ==> chain_page(#[trigger] pager.pages_view()[first + i], first as u64, i, data@, bounds[i], bounds[i + 1]),
                forall|i: int| 1 <= i < first ==> #[trigger] pager.pages_view()[i] == old(pager).pages_view()[i],
                forall|k: int| 0 <= k < page_size && !(PAGE_COUNT_OFFSET <= k < PAGE_COUNT_OFFSET + 8)
                    ==> #[trigger] pager.pages_view()[0][k] == old(pager).pages_view()[0][k],
                pos == (if written as int * cap as int <= n { written as int * cap as int } else { n as int }),
                written > 0 ==> ((written - 1) as int) * (cap as int) < n,
                written > 0 ==> first_id == first,
            decreases n - pos,
        {
            let ghost before = pager.pages_view();
            proof {
                lemma_pages_needed_more(n as nat, cap as nat, written as nat);
            }
            let id = pager.new_page(PageType::Overflow)?;
            if written == 0 {
                first_id = id.0;
            }
            let chunk: usize = if n - pos <= cap { n - pos } else { cap };
            let next: u64 = if pos + chunk < n { id.0 + 1 } else { 0 };
            let next_bytes = u64_to_le_bytes(next);
            let len_bytes = u64_to_le_bytes(chunk as u64);
            let part = slice_subrange(data, pos, pos + chunk);
            let ghost mid = pager.pages_view();
            let w1 = pager.write_all_to_page(&id, next_bytes.as_slice(), OVERFLOW_NEXT_OFFSET);
            let ghost m1 = pager.pages_view();
            let w2 = pager.write_all_to_page(&id, len_bytes.as_slice(), OVERFLOW_LEN_OFFSET);
            let ghost m2 = pager.pages_view();
            let w3 = pager.write_all_to_page(&id, part, OVERFLOW_DATA_OFFSET);
            proof {
                lemma_le_roundtrip();
                assert(page_appended(before, mid, PageType::Overflow, page_size as nat));
                assert forall|k: int| 0 <= k < before.len() && k != id.0 implies #[trigger] pager.pages_view()[k] == mid[k] by {
                    assert(m1[k] == mid[k]);
                    assert(m2[k] == m1[k]);
                }
                let p = pager.pages_view()[id.0 as int];
                assert(w1 is Ok && w2 is Ok && w3 is Ok);
                assert(p[10] == mid[id.0 as int][10]);
                assert(extract(p, OVERFLOW_NEXT_OFFSET as int, 8) =~= le64(next));
                assert(extract(p, OVERFLOW_LEN_OFFSET as int, 8) =~= le64(chunk as u64));
                assert(extract(p, OVERFLOW_DATA_OFFSET as int, chunk as int) =~= data@.subrange(pos as int, pos + chunk));
                bounds = bounds.push(pos + chunk);
                assert forall|i: int| 0 <= i < written implies chain_page(#[trigger] pager.pages_view()[first + i], first as u64, i, data@, bounds[i], bounds[i + 1]) by {
                    assert(pager.pages_view()[first + i] == mid[first + i]);
                    assert(mid[first + i] == before[first + i]);
                }
                assert forall|i: int| 1 <= i < first implies #[trigger] pager.pages_view()[i] == old(pager).pages_view()[i] by {
                    assert(pager.pages_view()[i] == mid[i]);
                    assert(mid[i] == before[i]);
                }
                assert(pager.pages_view()[0] == mid[0]);
                assert forall|k: int| 0 <= k < page_size && !(PAGE_COUNT_OFFSET <= k < PAGE_COUNT_OFFSET + 8)
                    implies #[trigger] pager.pages_view()[0][k] == old(pager).pages_view()[0][k] by {
                    assert(mid[0][k] == before[0][k]);
                }
                if pos + chunk < n {
                    assert(chunk == cap);
                }
                assert((written + 1) as int * cap as int == written as int * cap as int + cap) by (nonlinear_arith);
                assert(written as int * cap as int == pos);
            }
            pos = pos + chunk;
            written = written + 1;
        }
        proof {
            lemma_chain_suffix(pager.pages_view(), page_size as nat, first as u64, written as int, bounds, data@, 0, pager.pages_view().len());
            assert(data@.subrange(0, n as int) =~= data@);
            lemma_pages_needed_exact(n as nat, cap as nat, written as nat);
        }
        Ok(Some(PageId(first_id)))
    }

    /// Read a little-endian `u64` at `offset` in a page.
    fn read_page_u64<P: Pager>(pager: &P, page_id: &PageId, offset: u64) -> (r: PagerResult<u64>)
        requires
            pager_wf(*pager),
            page_exists(pager.pages_view(), *page_id),
            offset + 8 <= pager.page_size_view(),
        ensures
            r == Ok::<u64, PagerError>(u64_at(pager.pages_view()[page_id.0 as int], offset as int)),
    {
        let bytes = pager.read_from_page(page_id, offset, 8)?;
        assert(extract(bytes@, 0, 8) =~= extract(pager.pages_view()[page_id.0 as int], offset as int, 8));
        Ok(read_u64(bytes.as_slice(), 0))
    }

    /// Read the content of the chain that starts at `page_id`.
    pub fn read<P: Pager>(pager: &P, page_id: &PageId) -> (r: PagerResult<Vec<u8>>)
        requires
            pager_wf(*pager),
        ensures
            match r {
                Ok(v) => chain_content(pager.pages_view(), pager.page_size_view(), page_id.0) == Ok::<Seq<u8>, PagerError>(v@),
                Err(e) => chain_content(pager.pages_view(), pager.page_size_view(), page_id.0) == Err::<Seq<u8>, PagerError>(e),
            },
    {
        let ghost pages = pager.pages_view();
        let ghost ps = pager.page_size_view();
        let page_size = pager.get_page_size();
        let mut fuel: u64 = pager.page_count();
        let mut cur: u64 = page_id.0;
        let mut acc: Vec<u8> = Vec::new();
        assert(acc@ + Seq::<u8>::empty() =~= Seq::<u8>::empty());
        loop
            invariant
                pager_wf(*pager),
                pages == pager.pages_view(),
                ps == pager.page_size_view(),
                page_size == ps,
                chain_content(pages, ps, page_id.0) == prepend(acc@, chain_read(pages, ps, cur, fuel as nat)),
            decreases fuel,
        {
            if fuel == 0 {
                return Err(PagerError::PageOverflow);
            }
            let cur_id = PageId(cur);
            match pager.assert_page_type(&cur_id, &PageType::Overflow) {
                Ok(_) => {},
                Err(e) => {
                    return Err(e);
                },
            }
            if page_size < OVERFLOW_DATA_OFFSET {
                return Err(PagerError::PageOverflow);
            }
            let n = Self::read_page_u64(pager, &cur_id, OVERFLOW_LEN_OFFSET)?;
            if n > page_size - OVERFLOW_DATA_OFFSET {
                return Err(PagerError::PageOverflow);
            }
            let data = pager.read_from_page(&cur_id, OVERFLOW_DATA_OFFSET, n as usize)?;
            let next = Self::read_page_u64(pager, &cur_id, OVERFLOW_NEXT_OFFSET)?;
            let ghost acc_before = acc@;
            acc.extend_from_slice(data.as_slice());
            assert(acc@ =~= acc_before + data@);
            if next == 0 {
                assert(acc@ =~= acc_before + data@ + Seq::<u8>::empty());
                return Ok(acc);
            }
            proof {
                let rest = chain_read(pages, ps, next, (fuel - 1) as nat);
                match rest {
                    Ok(v) => { assert(acc_before + (data@ + v) =~= acc@ + v); },
                    Err(_) => {},
                }
            }
            cur = next;
            fuel = fuel - 1;
        }
    }
}

} // verus!
