//! B+ tree leaves: each cell starts with a cell header (key, element size,
//! bytes held in the cell, first overflow page), then the first bytes of the
//! element; the rest of the element goes to a chain of overflow pages.
use vstd::prelude::*;
use vstd::slice::slice_subrange;
use crate::io::{splice, extract, u64_at, le64, lemma_le_roundtrip, read_u64, push_u64, read_bytes, usize_saturating, sat_usize};
use crate::pager::id::{PageId, opt_page_id_raw, opt_page_id_of_raw, opt_page_id_storable, opt_page_id_to_raw, opt_page_id_from_raw};
use crate::pager::error::{PagerError, PagerResult};
use crate::pager::page::page_type::PageType;
use crate::pager::traits::{Pager, pager_wf, pages_wf, page_exists, type_check, access_check, write_page_bytes, read_spec, write_spec, MAX_PAGE_COUNT};
use crate::pager::overflow::{Overflow, chain_content, chain_within, lemma_chain_frame, pages_needed, OVERFLOW_DATA_OFFSET};
use crate::pager::bptree::node_type::BPTreeNodeType;
use crate::pager::bptree::header::BPTreeNodeHeader;
use crate::paging::bptree::{
    BPTreeNode, BPTreeCellId, BPTreeCellSize, BPTreeNodeOffset, BPTreeCellIndexes, BPTreeCellCapacity,
    cell_size_spec, cell_pos, cell_bytes, node_header_at, node_ok, insert_cell_checked, remove_cell_checked, node_appended,
    with_len, lemma_insert_cell_moves_cells,
};

verus! {

/// Where the cell header starts in a cell.
pub const CELL_HEADER_OFFSET: u64 = 0;

/// Where the element starts in a cell: after the cell header.
pub const CELL_ELEMENT_OFFSET: u64 = 32;

/// A tree leaf cell
/// Header: 32 bytes per cell
/// Payload: what is left of the cell
/// If > payload: throw the remaining into overflow pages
#[derive(Debug, Clone, Copy, PartialEq, Eq, Structural)]
pub struct BPTreeLeafCellHeader {
    /// The element index
    pub index: u64,
    /// The total element size, including overflow
    pub size: u64,
    /// The portion stored on the current page
    pub in_page_size: u64,
    /// Pointer to the overflow page
    pub overflow: Option<PageId>,
}

pub open spec fn leaf_cell_header_bytes(h: BPTreeLeafCellHeader) -> Seq<u8> {
    le64(h.index) + le64(h.size) + le64(h.in_page_size) + le64(opt_page_id_raw(h.overflow))
}

pub open spec fn leaf_cell_header_of_bytes(s: Seq<u8>) -> BPTreeLeafCellHeader {
    BPTreeLeafCellHeader {
        index: u64_at(s, 0),
        size: u64_at(s, 8),
        in_page_size: u64_at(s, 16),
        overflow: opt_page_id_of_raw(u64_at(s, 24)),
    }
}

/// A stored cell header reads back as itself, unless its overflow is `Some(PageId(0))`.
pub proof fn lemma_leaf_cell_header_roundtrip(h: BPTreeLeafCellHeader)
    requires
        opt_page_id_storable(h.overflow),
    ensures
        leaf_cell_header_bytes(h).len() == CELL_ELEMENT_OFFSET,
        leaf_cell_header_of_bytes(leaf_cell_header_bytes(h)) == h,
{
    lemma_le_roundtrip();
    let s = leaf_cell_header_bytes(h);
    assert(extract(s, 0, 8) =~= le64(h.index));
    assert(extract(s, 8, 8) =~= le64(h.size));
    assert(extract(s, 16, 8) =~= le64(h.in_page_size));
    assert(extract(s, 24, 8) =~= le64(opt_page_id_raw(h.overflow)));
}

/// The header of cell `j` of a leaf page, cells being `cs` bytes long.
pub open spec fn leaf_cell_header_at(page: Seq<u8>, cs: nat, j: int) -> BPTreeLeafCellHeader {
    leaf_cell_header_of_bytes(extract(page, cell_pos(cs, j, 0), CELL_ELEMENT_OFFSET as int))
}

/// The first cell from `j` on whose key is at least `key`, or the error met on the way.
pub open spec fn find_from(page: Seq<u8>, page_size: nat, cs: nat, len: int, key: u64, j: int) -> PagerResult<Option<BPTreeCellId>>
    decreases len - j,
{
    if j >= len || j < 0 {
        Ok(None)
    } else if cell_pos(cs, j, CELL_ELEMENT_OFFSET as int) > page_size {
        Err(PagerError::PageOverflow)
    } else if leaf_cell_header_at(page, cs, j).index >= key {
        Ok(Some(BPTreeCellId(j as u8)))
    } else {
        find_from(page, page_size, cs, len, key, j + 1)
    }
}

/// The answer of `BPTreeLeaf::find_cell_by_key`: the first cell whose key is at least `key`.
pub open spec fn find_spec(pages: Seq<Seq<u8>>, page_size: nat, id: PageId, key: u64) -> PagerResult<Option<BPTreeCellId>> {
    match type_check(pages, id, PageType::BTree) {
        Err(e) => Err(e),
        Ok(_) => {
            let p = pages[id.0 as int];
            let h = node_header_at(p);
            find_from(p, page_size, cell_size_spec(page_size, h.capacity), h.len as int, key, 0)
        },
    }
}

/// Where an element of key `key` goes in leaf `id`: at the first cell with a
/// key at least as large; when there is none, at the number of cells plus
/// one, a place the node refuses as sparse.
pub open spec fn insert_target(pages: Seq<Seq<u8>>, page_size: nat, id: PageId, key: u64) -> PagerResult<int> {
    match find_spec(pages, page_size, id, key) {
        Err(e) => Err(e),
        Ok(Some(c)) => Ok(c.0 as int),
        Ok(None) => Ok(node_header_at(pages[id.0 as int]).len + 1),
    }
}

/// The place past the last cell is a cell number: when no cell has a key at
/// least `key`, the node holds fewer than 255 cells.
pub open spec fn insert_target_in_range(pages: Seq<Seq<u8>>, page_size: nat, id: PageId, key: u64) -> bool {
    find_spec(pages, page_size, id, key) == Ok::<Option<BPTreeCellId>, PagerError>(None)
        ==> node_header_at(pages[id.0 as int]).len < 255
}

/// Number of bytes of an element held in a cell of `cs` bytes: what the cell
/// leaves after its header, on 64 bits wrapping below zero.
pub open spec fn max_in_page(cs: u64) -> u64 {
    if cs >= CELL_ELEMENT_OFFSET { (cs - CELL_ELEMENT_OFFSET) as u64 } else { (cs + 0x1_0000_0000_0000_0000 - CELL_ELEMENT_OFFSET) as u64 }
}

pub struct BPTreeLeaf;

impl BPTreeLeafCellHeader {
    pub fn size_of() -> (r: u64)
        ensures
            r == CELL_ELEMENT_OFFSET,
    {
        PageId::size_of() + 3 * 8
    }

    /// A cell header of zeroes.
    pub fn default_header() -> (r: Self)
        ensures
            r == (BPTreeLeafCellHeader { index: 0, size: 0, in_page_size: 0, overflow: None }),
    {
        BPTreeLeafCellHeader { index: 0, size: 0, in_page_size: 0, overflow: None }
    }

    pub fn to_bytes(&self) -> (out: Vec<u8>)
        ensures
            out@ == leaf_cell_header_bytes(*self),
    {
        let mut out: Vec<u8> = Vec::new();
        push_u64(&mut out, self.index);
        push_u64(&mut out, self.size);
        push_u64(&mut out, self.in_page_size);
        push_u64(&mut out, opt_page_id_to_raw(self.overflow));
        out
    }

    pub fn from_bytes(bytes: &[u8]) -> (r: Self)
        requires
            bytes@.len() >= CELL_ELEMENT_OFFSET,
        ensures
            r == leaf_cell_header_of_bytes(bytes@),
    {
        BPTreeLeafCellHeader {
            index: read_u64(bytes, 0),
            size: read_u64(bytes, 8),
            in_page_size: read_u64(bytes, 16),
            overflow: opt_page_id_from_raw(read_u64(bytes, 24)),
        }
    }
}

impl BPTreeLeaf {
    /// Room for an element in a cell of the given size, after the cell header
    /// (wrapping below zero on 64 bits).
    pub fn max_in_page_element_size(size: &BPTreeCellSize) -> (r: u64)
        ensures
            r == max_in_page(size.0),
    {
        size.0.wrapping_sub(BPTreeLeafCellHeader::size_of())
    }

    /// Read the header of cell `cell_id`, whatever the node's number of cells.
    pub fn read_header_unchecked<P: Pager>(
        pager: &P,
        page_id: &PageId,
        cell_id: &BPTreeCellId,
        header: &BPTreeNodeHeader,
    ) -> (r: PagerResult<BPTreeLeafCellHeader>)
        requires
            pager_wf(*pager),
            header.capacity > 0,
        ensures
            r == (match read_spec(pager.pages_view(), pager.page_size_view(), *page_id,
                cell_pos(cell_size_spec(pager.page_size_view(), header.capacity), cell_id.0 as int, 0), CELL_ELEMENT_OFFSET as int) {
                Ok(b) => Ok::<BPTreeLeafCellHeader, PagerError>(leaf_cell_header_of_bytes(b)),
                Err(e) => Err(e),
            }),
    {
        let size = BPTreeCellSize::from(pager.get_page_size(), header.capacity);
        proof { crate::paging::bptree::lemma_cell_size_bound(pager.page_size_view(), header.capacity); }
        let bytes = BPTreeNode::read_cell_unchecked(pager, page_id, cell_id, &size, &BPTreeNodeOffset(CELL_HEADER_OFFSET), 32)?;
        Ok(BPTreeLeafCellHeader::from_bytes(bytes.as_slice()))
    }

    /// The first cell of the leaf whose key is at least `key`.
    pub fn find_cell_by_key<P: Pager>(pager: &P, page_id: &PageId, key: u64) -> (r: PagerResult<Option<BPTreeCellId>>)
        requires
            pager_wf(*pager),
            node_ok(pager.pages_view(), *page_id),
        ensures
            r == find_spec(pager.pages_view(), pager.page_size_view(), *page_id, key),
    {
        let node_header = BPTreeNode::read_header(pager, page_id)?;
        let indexes = BPTreeCellIndexes::from_header(&node_header);
        let ids = indexes.iter();
        let ghost p = pager.pages_view()[page_id.0 as int];
        let ghost cs = cell_size_spec(pager.page_size_view(), node_header.capacity);
        let mut i: usize = 0;
        while i < ids.len()
            invariant
                pager_wf(*pager),
                ids@.len() == node_header.len,
                forall|k: int| 0 <= k < node_header.len ==> #[trigger] ids@[k] == BPTreeCellId(k as u8),
                node_header == node_header_at(p),
                node_header.capacity > 0,
                page_exists(pager.pages_view(), *page_id),
                p == pager.pages_view()[page_id.0 as int],
                cs == cell_size_spec(pager.page_size_view(), node_header.capacity),
                i <= ids@.len(),
                find_spec(pager.pages_view(), pager.page_size_view(), *page_id, key)
                    == find_from(p, pager.page_size_view(), cs, node_header.len as int, key, i as int),
            decreases ids@.len() - i,
        {
            let cell_id = ids[i];
            let cell_header = Self::read_header_unchecked(pager, page_id, &cell_id, &node_header)?;
            if cell_header.index >= key {
                return Ok(Some(cell_id));
            }
            i = i + 1;
        }
        Ok(None)
    }

    /// The first cell of the leaf whose key is at least `key`.
    pub fn find_nearest_cell_by_key<P: Pager>(pager: &P, page_id: &PageId, key: u64) -> (r: PagerResult<Option<BPTreeCellId>>)
        requires
            pager_wf(*pager),
            node_ok(pager.pages_view(), *page_id),
        ensures
            r == find_spec(pager.pages_view(), pager.page_size_view(), *page_id, key),
    {
        Self::find_cell_by_key(pager, page_id, key)
    }

    /// Remove the first cell whose key is at least `key`, if there is one.
    pub fn remove<P: Pager>(pager: &mut P, page_id: &PageId, key: u64) -> (r: PagerResult<()>)
        requires
            pager_wf(*old(pager)),
            node_ok(old(pager).pages_view(), *page_id),
        ensures
            pager_wf(*final(pager)),
            final(pager).page_size_view() == old(pager).page_size_view(),
            match find_spec(old(pager).pages_view(), old(pager).page_size_view(), *page_id, key) {
                Err(e) => r == Err::<(), PagerError>(e) && final(pager).pages_view() == old(pager).pages_view(),
                Ok(None) => r is Ok && final(pager).pages_view() == old(pager).pages_view(),
                Ok(Some(c)) => (r, final(pager).pages_view()) == remove_cell_checked(old(pager).pages_view(), old(pager).page_size_view(), *page_id, c.0 as int),
            },
    {
        match Self::find_cell_by_key(pager, page_id, key)? {
            None => Ok(()),
            Some(cell_id) => BPTreeNode::remove_cell(pager, page_id, &cell_id),
        }
    }
}

/// Number of bytes of an `n`-byte element held in its cell.
pub open spec fn in_page_len(cs: nat, n: nat) -> nat {
    if n <= max_in_page(cs as u64) { n } else { max_in_page(cs as u64) as nat }
}

/// Pages `fin` hold, over `pages`: the element's first bytes and the cell
/// header `hdr` written in cell `c` of page `id`, the rest of the element in
/// a chain from page `pages.len()` when there is a rest, and nothing else
/// changed but the page count.
pub open spec fn element_written(pages: Seq<Seq<u8>>, fin: Seq<Seq<u8>>, page_size: nat, id: PageId, cs: nat, c: int,
    element: Seq<u8>, hdr: BPTreeLeafCellHeader) -> bool
{
    let m = hdr.in_page_size as int;
    let big = pages.len();
    let mid = write_page_bytes(write_page_bytes(pages, id, cell_pos(cs, c, CELL_ELEMENT_OFFSET as int), element.subrange(0, m)),
        id, cell_pos(cs, c, 0), leaf_cell_header_bytes(hdr));
    &&& fin.len() >= big
    &&& forall|i: int| 1 <= i < big ==> #[trigger] fin[i] == mid[i]
    &&& forall|k: int| 0 <= k < page_size && !(16 <= k < 24) ==> #[trigger] fin[0][k] == mid[0][k]
    &&& hdr.size == element.len()
    &&& hdr.overflow == (if m < element.len() { Some(PageId(big as u64)) } else { None })
    &&& m < element.len() ==> chain_content(fin, page_size, big as u64) == Ok::<Seq<u8>, PagerError>(element.subrange(m, element.len() as int))
    &&& m < element.len() ==> chain_within(fin, big as u64, fin.len(), big)
}

/// Whether writing an `n`-byte element in cell `c` of page `id` succeeds.
pub open spec fn element_fits(pages: Seq<Seq<u8>>, page_size: nat, id: PageId, cs: nat, c: int, n: nat) -> bool {
    let m = in_page_len(cs, n);
    &&& access_check(pages, page_size, id, cell_pos(cs, c, CELL_ELEMENT_OFFSET as int), m as int) is Ok
    &&& (m == n || (page_size > OVERFLOW_DATA_OFFSET
        && pages.len() + pages_needed((n - m) as nat, (page_size - OVERFLOW_DATA_OFFSET) as nat) <= MAX_PAGE_COUNT))
}

/// What a failed write of an element in cell `c` of page `id` answers and
/// leaves: a refused write of its first bytes changes nothing; otherwise those
/// bytes are written and the overflow chain for the rest could not be made,
/// which changes no page held before but for the page count, and may leave new
/// pages behind.
pub open spec fn element_failed(pages: Seq<Seq<u8>>, fin: Seq<Seq<u8>>, page_size: nat, id: PageId, cs: nat, c: int,
    element: Seq<u8>, r: PagerResult<()>) -> bool
{
    let m = in_page_len(cs, element.len());
    let pos = cell_pos(cs, c, CELL_ELEMENT_OFFSET as int);
    match access_check(pages, page_size, id, pos, m as int) {
        Err(e) => r == Err::<(), PagerError>(e) && fin == pages,
        Ok(_) => {
            let w = write_page_bytes(pages, id, pos, element.subrange(0, m as int));
            &&& r == Err::<(), PagerError>(if page_size <= OVERFLOW_DATA_OFFSET {
                PagerError::PageOverflow
            } else {
                PagerError::PageFull(PageId(MAX_PAGE_COUNT as u64))
            })
            &&& fin.len() >= w.len()
            &&& forall|i: int| 1 <= i < w.len() ==> #[trigger] fin[i] == w[i]
            &&& forall|k: int| 0 <= k < page_size && !(16 <= k < 24) ==> #[trigger] fin[0][k] == w[0][k]
        },
    }
}

impl BPTreeLeaf {
    /// Write a cell header in cell `cell_id`.
    fn write_header_unchecked<P: Pager>(
        pager: &mut P,
        page_id: &PageId,
        cell_id: &BPTreeCellId,
        node_header: &BPTreeNodeHeader,
        cell_header: &BPTreeLeafCellHeader,
    ) -> (r: PagerResult<()>)
        requires
            pager_wf(*old(pager)),
            node_header.capacity > 0,
        ensures
            pager_wf(*final(pager)),
            final(pager).page_size_view() == old(pager).page_size_view(),
            write_spec(old(pager).pages_view(), old(pager).page_size_view(), final(pager).pages_view(), *page_id,
                cell_pos(cell_size_spec(old(pager).page_size_view(), node_header.capacity), cell_id.0 as int, 0),
                leaf_cell_header_bytes(*cell_header), r),
    {
        let size = BPTreeCellSize::from(pager.get_page_size(), node_header.capacity);
        proof { crate::paging::bptree::lemma_cell_size_bound(pager.page_size_view(), node_header.capacity); }
        let bytes = cell_header.to_bytes();
        BPTreeNode::write_cell_unchecked(pager, page_id, cell_id, &size, &BPTreeNodeOffset(CELL_HEADER_OFFSET), bytes.as_slice())
    }

    /// Write the first bytes of `element` in cell `cell_id` and the rest in a
    /// new overflow chain, and record sizes and chain in `cell_header`.
    fn write_element_unchecked<P: Pager>(
        pager: &mut P,
        page_id: &PageId,
        cell_id: &BPTreeCellId,
        header: &BPTreeNodeHeader,
        cell_header: &mut BPTreeLeafCellHeader,
        element: &[u8],
    ) -> (r: PagerResult<()>)
        requires
            pager_wf(*old(pager)),
            header.capacity > 0,
        ensures
            pager_wf(*final(pager)),
            final(pager).page_size_view() == old(pager).page_size_view(),
            final(cell_header).index == old(cell_header).index,
            final(pager).pages_view().len() >= old(pager).pages_view().len(),
            ({
                let pages = old(pager).pages_view();
                let ps = old(pager).page_size_view();
                let cs = cell_size_spec(ps, header.capacity);
                let n = element@.len();
                let m = in_page_len(cs, n);
                &&& r is Ok <==> element_fits(pages, ps, *page_id, cs, cell_id.0 as int, n)
                &&& r is Err ==> element_failed(pages, final(pager).pages_view(), ps, *page_id, cs, cell_id.0 as int, element@, r)
                &&& r is Ok ==> final(cell_header).in_page_size == m
                &&& r is Ok ==> element_written(pages,
                    write_page_bytes(final(pager).pages_view(), *page_id, cell_pos(cs, cell_id.0 as int, 0), leaf_cell_header_bytes(*final(cell_header))),
                    ps, *page_id, cs, cell_id.0 as int, element@, *final(cell_header))
            }),
    {
        let size = BPTreeCellSize::from(pager.get_page_size(), header.capacity);
        proof { crate::paging::bptree::lemma_cell_size_bound(pager.page_size_view(), header.capacity); }
        let in_page_size = Self::max_in_page_element_size(&size);
        let n = element.len();
        let m: usize = if (n as u64) <= in_page_size { n } else { in_page_size as usize };
        let in_page_data = slice_subrange(element, 0, m);
        BPTreeNode::write_cell_unchecked(pager, page_id, cell_id, &size, &BPTreeNodeOffset(CELL_ELEMENT_OFFSET), in_page_data)?;
        let ghost w1 = pager.pages_view();
        cell_header.in_page_size = m as u64;
        cell_header.size = n as u64;
        let rest = slice_subrange(element, m, n);
        let ov = Overflow::write(pager, rest)?;
        cell_header.overflow = ov;
        proof {
            let fin = pager.pages_view();
            let ps = old(pager).page_size_view();
            let cs = size.0 as nat;
            let hb = leaf_cell_header_bytes(*cell_header);
            let big = old(pager).pages_view().len();
            let fin2 = write_page_bytes(fin, *page_id, cell_pos(cs, cell_id.0 as int, 0), hb);
            let mid = write_page_bytes(w1, *page_id, cell_pos(cs, cell_id.0 as int, 0), hb);
            lemma_leaf_cell_header_roundtrip(*cell_header);
            assert(element@.subrange(0, m as int) == in_page_data@);
            assert forall|i: int| 1 <= i < big implies #[trigger] fin2[i] == mid[i] by {
                if i != page_id.0 {
                    assert(fin[i] == w1[i]);
                }
            }
            assert forall|k: int| 0 <= k < ps && !(16 <= k < 24) implies #[trigger] fin2[0][k] == mid[0][k] by {}
            if m < n {
                lemma_chain_frame(fin, fin2, ps, big as u64, fin.len(), big);
            }
        }
        Ok(())
    }
}

/// What `BPTreeLeaf::insert` does once the target cell `c` is known and the
/// cell inserted there: `fin` holds the element written in that cell.
pub open spec fn leaf_insert_done(pages1: Seq<Seq<u8>>, fin: Seq<Seq<u8>>, page_size: nat, id: PageId, c: int, key: u64, element: Seq<u8>) -> bool {
    let cs = cell_size_spec(page_size, node_header_at(pages1[id.0 as int]).capacity);
    let m = in_page_len(cs, element.len());
    let hdr = BPTreeLeafCellHeader {
        index: key,
        size: element.len() as u64,
        in_page_size: m as u64,
        overflow: if m < element.len() { Some(PageId(pages1.len() as u64)) } else { None },
    };
    element_written(pages1, fin, page_size, id, cs, c, element, hdr)
}

/// What inserting `element` under `key` in the leaf of page `id` answers and leaves.
pub open spec fn leaf_insert_outcome(
    pages: Seq<Seq<u8>>,
    page_size: nat,
    id: PageId,
    key: u64,
    element: Seq<u8>,
    r: PagerResult<()>,
    fin: Seq<Seq<u8>>,
) -> bool {
    match insert_target(pages, page_size, id, key) {
        Err(e) => r == Err::<(), PagerError>(e) && fin == pages,
        Ok(c) => {
            let (r1, pages1) = insert_cell_checked(pages, page_size, id, c);
            let cs = cell_size_spec(page_size, node_header_at(pages[id.0 as int]).capacity);
            &&& r1 is Err ==> r == r1 && fin == pages
            &&& r1 is Ok ==> (r is Ok <==> element_fits(pages1, page_size, id, cs, c, element.len()))
            &&& r1 is Ok && r is Err ==> element_failed(pages1, fin, page_size, id, cs, c, element, r)
            &&& r is Ok ==> leaf_insert_done(pages1, fin, page_size, id, c, key, element)
        },
    }
}

/// What making a leaf of `capacity` with a first element answers and leaves:
/// the empty leaf is made, and its first insertion, which finds no cell, is
/// refused as sparse.
pub open spec fn leaf_new_outcome(
    pages: Seq<Seq<u8>>,
    page_size: nat,
    capacity: u8,
    r: PagerResult<PageId>,
    fin: Seq<Seq<u8>>,
) -> bool {
    &&& pages.len() >= MAX_PAGE_COUNT ==> r == Err::<PageId, PagerError>(PagerError::PageFull(PageId(pages.len() as u64)))
        && fin == pages
    &&& pages.len() < MAX_PAGE_COUNT ==> r == Err::<PageId, PagerError>(PagerError::SparseCell)
        && node_appended(pages, fin, BPTreeNodeHeader { node_type: BPTreeNodeType::Leaf, len: 0, capacity }, page_size)
}

impl BPTreeLeaf {
    /// Insert the element `element` under `key` at the first cell whose key is
    /// at least `key`; with no such cell the node answers `SparseCell`.
    pub fn insert<P: Pager>(pager: &mut P, page_id: &PageId, key: u64, element: &[u8]) -> (r: PagerResult<()>)
        requires
            pager_wf(*old(pager)),
            node_ok(old(pager).pages_view(), *page_id),
            insert_target_in_range(old(pager).pages_view(), old(pager).page_size_view(), *page_id, key),
        ensures
            pager_wf(*final(pager)),
            final(pager).page_size_view() == old(pager).page_size_view(),
            leaf_insert_outcome(old(pager).pages_view(), old(pager).page_size_view(), *page_id, key, element@, r,
                final(pager).pages_view()),
    {
        let node_header = BPTreeNode::read_header(pager, page_id)?;
        let found = Self::find_nearest_cell_by_key(pager, page_id, key)?;
        let cell_id = match found {
            Some(cell_id) => cell_id,
            None => BPTreeCellId(node_header.len + 1),
        };
        let mut cell_header = BPTreeLeafCellHeader::default_header();
        cell_header.index = key;
        BPTreeNode::insert_cell(pager, page_id, &cell_id)?;
        let ghost pages1 = pager.pages_view();
        proof {
            crate::paging::bptree::lemma_insert_cell_moves_cells(old(pager).pages_view(), old(pager).page_size_view(), *page_id, cell_id.0);
            assert(node_header_at(pages1[page_id.0 as int]).capacity == node_header.capacity);
        }
        Self::write_element_unchecked(pager, page_id, &cell_id, &node_header, &mut cell_header, element)?;
        let ghost after = pager.pages_view();
        let w = Self::write_header_unchecked(pager, page_id, &cell_id, &node_header, &cell_header);
        proof {
            let ps = old(pager).page_size_view();
            let cs = cell_size_spec(ps, node_header.capacity);
            let m = in_page_len(cs, element@.len());
            assert(page_exists(after, *page_id));
            assert(element_fits(pages1, ps, *page_id, cs, cell_id.0 as int, element@.len()));
            assert(cell_pos(cs, cell_id.0 as int, CELL_ELEMENT_OFFSET as int) + m <= ps);
            assert(cell_pos(cs, cell_id.0 as int, 0) + CELL_ELEMENT_OFFSET <= ps);
            lemma_le_roundtrip();
            assert(w is Ok);
            let hdr = BPTreeLeafCellHeader {
                index: key,
                size: element@.len() as u64,
                in_page_size: m as u64,
                overflow: if m < element@.len() { Some(PageId(pages1.len() as u64)) } else { None },
            };
            assert(cell_header == hdr);
        }
        w
    }

    /// Make a new leaf of the given capacity, then insert `element` under
    /// `key` in it.
    pub fn new<P: Pager>(pager: &mut P, capacity: BPTreeCellCapacity, key: u64, element: &[u8]) -> (r: PagerResult<PageId>)
        requires
            pager_wf(*old(pager)),
            capacity > 0,
        ensures
            pager_wf(*final(pager)),
            final(pager).page_size_view() == old(pager).page_size_view(),
            leaf_new_outcome(old(pager).pages_view(), old(pager).page_size_view(), capacity, r, final(pager).pages_view()),
    {
        let page_id = BPTreeNode::new(pager, BPTreeNodeType::Leaf, capacity)?;
        let ghost pages0 = pager.pages_view();
        proof {
            let p = pages0[page_id.0 as int];
            assert(p.subrange(19, 22) =~= extract(p, 19, 3));
            assert(p[10] == 4u8);
            assert(node_header_at(p).len == 0);
        }
        Self::insert(pager, &page_id, key, element)?;
        Ok(page_id)
    }
}

} // verus!

verus! {

/// The keys of the cells of the leaf stored in `page`, in cell order.
pub open spec fn leaf_keys(page: Seq<u8>, page_size: nat) -> Seq<u64> {
    let h = node_header_at(page);
    let cs = cell_size_spec(page_size, h.capacity);
    Seq::new(h.len as nat, |j: int| leaf_cell_header_at(page, cs, j).index)
}

/// The keys never decrease from one cell to the next.
pub open spec fn keys_sorted(keys: Seq<u64>) -> bool {
    forall|i: int, j: int| 0 <= i <= j < keys.len() ==> keys[i] <= keys[j]
}

/// A search that finds cell `c` from cell `j0` on passed only smaller keys,
/// found a key at least `key`, and found it inside the page.
proof fn lemma_find_from_found(page: Seq<u8>, page_size: nat, cs: nat, len: int, key: u64, j0: int)
    requires
        0 <= j0,
        len <= 256,
    ensures
        find_from(page, page_size, cs, len, key, j0) matches Ok(Some(c)) ==> {
            &&& j0 <= c.0 < len
            &&& leaf_cell_header_at(page, cs, c.0 as int).index >= key
            &&& cell_pos(cs, c.0 as int, CELL_ELEMENT_OFFSET as int) <= page_size
            &&& forall|j: int| j0 <= j < c.0 ==> #[trigger] leaf_cell_header_at(page, cs, j).index < key
        },
    decreases len - j0,
{
    if j0 < len {
        lemma_find_from_found(page, page_size, cs, len, key, j0 + 1);
    }
}

/// Cells hold the same bytes, so the same header.
proof fn lemma_same_cell_same_header(p: Seq<u8>, q: Seq<u8>, cs: nat, i: int, j: int)
    requires
        cs >= CELL_ELEMENT_OFFSET,
        cell_bytes(q, cs, i) == cell_bytes(p, cs, j),
        0 <= cell_pos(cs, i, 0),
        cell_pos(cs, i, cs as int) <= q.len(),
        0 <= cell_pos(cs, j, 0),
        cell_pos(cs, j, cs as int) <= p.len(),
    ensures
        leaf_cell_header_at(q, cs, i) == leaf_cell_header_at(p, cs, j),
{
    assert(extract(q, cell_pos(cs, i, 0), CELL_ELEMENT_OFFSET as int) =~= cell_bytes(q, cs, i).subrange(0, CELL_ELEMENT_OFFSET as int));
    assert(extract(p, cell_pos(cs, j, 0), CELL_ELEMENT_OFFSET as int) =~= cell_bytes(p, cs, j).subrange(0, CELL_ELEMENT_OFFSET as int));
}

/// Cells lie one after the other: cell `j` ends where cell `j + 1` starts,
/// and before cell `c` starts when `j < c`.
proof fn lemma_cells_ordered(cs: nat, j: int, c: int)
    requires
        j < c,
    ensures
        cell_pos(cs, j, cs as int) <= cell_pos(cs, c, 0),
        cell_pos(cs, j + 1, 0) == cell_pos(cs, j, cs as int),
{
    assert(cs * j + cs <= cs * c) by (nonlinear_arith)
        requires
            j < c,
    ;
    assert(cs * (j + 1) == cs * j + cs) by (nonlinear_arith);
}

/// Inserting in a leaf whose keys are in order, when the insertion succeeds,
/// puts the new key before the first key at least as large: the leaf holds
/// one more cell, its keys are the former keys with the new one inserted and
/// stay in order, the former cells keep their bytes (those from the new cell
/// on, one place further), and the new cell records the element's size and
/// how much of it the cell holds.
pub proof fn lemma_insert_keeps_keys_sorted(
    pages: Seq<Seq<u8>>,
    page_size: nat,
    id: PageId,
    key: u64,
    element: Seq<u8>,
    r: PagerResult<()>,
    fin: Seq<Seq<u8>>,
)
    requires
        pages_wf(pages, page_size),
        node_ok(pages, id),
        id.0 != 0,
        node_header_at(pages[id.0 as int]).len < 255,
        cell_size_spec(page_size, node_header_at(pages[id.0 as int]).capacity) >= CELL_ELEMENT_OFFSET,
        keys_sorted(leaf_keys(pages[id.0 as int], page_size)),
        leaf_insert_outcome(pages, page_size, id, key, element, r, fin),
        r is Ok,
    ensures
        ({
            let p = pages[id.0 as int];
            let q = fin[id.0 as int];
            let h = node_header_at(p);
            let cs = cell_size_spec(page_size, h.capacity);
            let c = insert_target(pages, page_size, id, key)->Ok_0;
            &&& 0 <= c < h.len
            &&& node_header_at(q) == with_len(h, (h.len + 1) as u8)
            &&& leaf_keys(q, page_size) == leaf_keys(p, page_size).insert(c, key)
            &&& keys_sorted(leaf_keys(q, page_size))
            &&& forall|j: int| 0 <= j < c ==> #[trigger] cell_bytes(q, cs, j) == cell_bytes(p, cs, j)
            &&& forall|j: int| c < j <= h.len ==> #[trigger] cell_bytes(q, cs, j) == cell_bytes(p, cs, j - 1)
            &&& leaf_cell_header_at(q, cs, c).size == element.len()
            &&& leaf_cell_header_at(q, cs, c).in_page_size == in_page_len(cs, element.len())
        }),
{
    let p = pages[id.0 as int];
    let h = node_header_at(p);
    let cs = cell_size_spec(page_size, h.capacity);
    let len = h.len as int;
    lemma_find_from_found(p, page_size, cs, len, key, 0);
    assert(type_check(pages, id, PageType::BTree) is Ok);
    let found = find_spec(pages, page_size, id, key);
    assert(found is Ok);
    let c = insert_target(pages, page_size, id, key)->Ok_0;
    let (r1, pages1) = insert_cell_checked(pages, page_size, id, c);
    assert(r1 is Ok);
    assert(found matches Ok(Some(cid)) && cid.0 == c);
    assert(0 <= c < len);
    lemma_insert_cell_moves_cells(pages, page_size, id, c as u8);
    let p1 = pages1[id.0 as int];
    assert(node_header_at(p1) == with_len(h, ((h.len + 1) % 256) as u8));
    assert(cell_size_spec(page_size, node_header_at(p1).capacity) == cs);
    let m = in_page_len(cs, element.len());
    let hdr = BPTreeLeafCellHeader {
        index: key,
        size: element.len() as u64,
        in_page_size: m as u64,
        overflow: if m < element.len() { Some(PageId(pages1.len() as u64)) } else { None },
    };
    assert(element_written(pages1, fin, page_size, id, cs, c, element, hdr));
    let hb = leaf_cell_header_bytes(hdr);
    lemma_leaf_cell_header_roundtrip(hdr);
    let a = splice(p1, cell_pos(cs, c, CELL_ELEMENT_OFFSET as int), element.subrange(0, m as int));
    let q = fin[id.0 as int];
    assert(q == splice(a, cell_pos(cs, c, 0), hb));
    // where the cells lie
    assert(p.len() == page_size && p1.len() == page_size);
    assert(cell_pos(cs, len + 1, 0) <= page_size);
    // the writes stay inside cell `c`
    let e = element.subrange(0, m as int);
    assert(element_fits(pages1, page_size, id, cs, c, element.len()));
    assert(max_in_page(cs as u64) == cs - CELL_ELEMENT_OFFSET);
    assert(m <= cs - CELL_ELEMENT_OFFSET);
    let pc = cell_pos(cs, c, 0);
    assert(cell_pos(cs, c, CELL_ELEMENT_OFFSET as int) == pc + CELL_ELEMENT_OFFSET);
    assert(pc + CELL_ELEMENT_OFFSET + m <= page_size);
    lemma_cells_ordered(cs, c, len + 1);
    assert(pc + cs <= page_size);
    assert(a.len() == page_size);
    assert(q.len() == page_size);
    assert forall|k: int| 0 <= k < page_size && !(pc <= k < pc + CELL_ELEMENT_OFFSET + m) implies #[trigger] q[k] == p1[k] by {
        if k < pc {
            assert(q[k] == a[k]);
        } else {
            assert(q[k] == a[k]);
        }
    }
    assert(extract(q, pc, CELL_ELEMENT_OFFSET as int) =~= hb);
    assert(leaf_cell_header_at(q, cs, c) == hdr);
    // the node header
    assert(q.subrange(19, 22) =~= p1.subrange(19, 22));
    assert(node_header_at(q) == with_len(h, (h.len + 1) as u8));
    // the other cells
    assert forall|j: int| 0 <= j <= len && j != c implies #[trigger] cell_bytes(q, cs, j) == cell_bytes(p1, cs, j) by {
        if j < c {
            lemma_cells_ordered(cs, j, c);
        } else {
            lemma_cells_ordered(cs, c, j);
            lemma_cells_ordered(cs, j, len + 1);
        }
        assert(cell_bytes(q, cs, j) =~= cell_bytes(p1, cs, j));
    }
    // the cells against the former page
    assert forall|j: int| 0 <= j < c implies #[trigger] cell_bytes(q, cs, j) == cell_bytes(p, cs, j) by {
        lemma_cells_ordered(cs, j, c);
        lemma_cells_ordered(cs, j, len + 1);
        assert(cell_bytes(q, cs, j) == cell_bytes(p1, cs, j));
    }
    assert forall|j: int| c < j <= len implies #[trigger] cell_bytes(q, cs, j) == cell_bytes(p, cs, j - 1) by {
        assert(cell_bytes(q, cs, j) == cell_bytes(p1, cs, j));
    }
    // the keys
    let old_keys = leaf_keys(p, page_size);
    let new_keys = leaf_keys(q, page_size);
    assert(cell_size_spec(page_size, node_header_at(q).capacity) == cs);
    assert forall|j: int| 0 <= j <= len implies #[trigger] new_keys[j] == old_keys.insert(c, key)[j] by {
        if j < c {
            lemma_cells_ordered(cs, j, c);
            lemma_cells_ordered(cs, j, len + 1);
            assert(cell_bytes(q, cs, j) == cell_bytes(p, cs, j));
            lemma_same_cell_same_header(p, q, cs, j, j);
        } else if j > c {
            lemma_cells_ordered(cs, j, len + 1);
            lemma_cells_ordered(cs, j - 1, len + 1);
            assert(cell_bytes(q, cs, j) == cell_bytes(p, cs, j - 1));
            lemma_same_cell_same_header(p, q, cs, j, j - 1);
        }
    }
    assert(new_keys =~= old_keys.insert(c, key));
    assert forall|i: int, j: int| 0 <= i <= j < new_keys.len() implies new_keys[i] <= new_keys[j] by {
        assert(new_keys[i] == old_keys.insert(c, key)[i]);
        assert(new_keys[j] == old_keys.insert(c, key)[j]);
        if i < c {
            assert(leaf_cell_header_at(p, cs, i).index < key);
        }
        if j > c {
            assert(old_keys[c] <= old_keys[j - 1]);
        }
        if i > c {
            assert(old_keys[i - 1] <= old_keys[j - 1]);
        }
        if i < c && j < c {
            assert(old_keys[i] <= old_keys[j]);
        }
    }
}

} // verus!
