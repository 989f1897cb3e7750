//! B+ tree nodes: a node header after the page header, then cells of equal
//! size filling the rest of the page.
use vstd::prelude::*;

pub mod leaf;
use crate::io::{splice, extract, usize_saturating};
use crate::pager::id::PageId;
use crate::pager::error::{PagerError, PagerResult};
use crate::pager::page::page_type::{PageType, page_type_byte};
use crate::pager::traits::{
    Pager, pager_wf, pages_wf, page_exists, stored_type, type_check, access_check, write_page_bytes,
    read_spec, write_spec, fresh_page, page_appended, MAX_PAGE_COUNT, PAGE_COUNT_OFFSET,
};
use crate::pager::bptree::node_type::{BPTreeNodeType, node_type_byte, node_type_of_byte, lemma_node_type_roundtrip};
use crate::pager::bptree::header::{BPTreeNodeHeader, node_header_bytes, node_header_of_bytes, lemma_node_header_roundtrip};
use crate::io::le64;
use crate::pager::utils::move_page_section;

verus! {

/// Where the node starts in its page: right after the page header.
pub const BP_TREE_OFFSET: u64 = 19;

/// Where the node header starts.
pub const BP_TREE_HEADER_OFFSET: u64 = 19;

/// Where the cells start: after the room reserved for the node header.
pub const BP_TREE_BODY_OFFSET: u64 = 43;

/// Largest offset inside a cell that the node accepts: beyond it, the
/// position of a byte in the page could not be computed on 64 bits.
pub const MAX_CELL_OFFSET: u64 = 0xffff_ff00_0000_0000;

/// Offset from the start of a cell, or from the start of the cells.
#[derive(Debug, Clone, Copy, PartialEq, Eq, Structural)]
pub struct BPTreeNodeOffset(pub u64);

/// Represent a node cell capacity (max number of cells)
pub type BPTreeCellCapacity = u8;

/// Size of every cell of a node.
#[derive(Debug, Clone, Copy, PartialEq, Eq, Structural)]
pub struct BPTreeCellSize(pub u64);

/// Represent a cell index
/// Useful to perform cell related operations (insert, remove, ...)
#[derive(Debug, Clone, Copy, PartialEq, Eq, Structural)]
pub struct BPTreeCellId(pub u8);

/// The indexes of the cells of a node, in order.
pub struct BPTreeCellIndexes(pub Vec<BPTreeCellId>);

pub struct BPTreeNode;

/// Size of each of the `capacity` cells in a page of `page_size` bytes.
pub open spec fn cell_size_spec(page_size: nat, capacity: u8) -> nat {
    if BP_TREE_BODY_OFFSET >= page_size {
        0
    } else {
        ((page_size - BP_TREE_BODY_OFFSET) as int / capacity as int) as nat
    }
}

/// The node header stored in a page.
pub open spec fn node_header_at(page: Seq<u8>) -> BPTreeNodeHeader {
    node_header_of_bytes(page.subrange(BP_TREE_HEADER_OFFSET as int, BP_TREE_HEADER_OFFSET + 3))
}

/// A page that holds the B+ tree type also holds a valid node type and a
/// non-zero capacity in its node header.
pub open spec fn node_ok(pages: Seq<Seq<u8>>, id: PageId) -> bool {
    page_exists(pages, id) && stored_type(pages[id.0 as int]) == PageType::BTree ==> {
        &&& pages[id.0 as int][BP_TREE_HEADER_OFFSET as int] <= 2
        &&& pages[id.0 as int][BP_TREE_HEADER_OFFSET + 2] > 0
    }
}

/// Position in the page of byte `off` of cell `cell`.
pub open spec fn cell_pos(cell_size: nat, cell: int, off: int) -> int {
    BP_TREE_BODY_OFFSET + cell_size * cell + off
}

/// The bytes of cell `j`.
pub open spec fn cell_bytes(page: Seq<u8>, cell_size: nat, j: int) -> Seq<u8> {
    extract(page, cell_pos(cell_size, j, 0), cell_size as int)
}

/// The page after cells `i..len` moved one cell to the right.
pub open spec fn shifted_right(page: Seq<u8>, cell_size: nat, i: int, len: int) -> Seq<u8> {
    if i < len {
        splice(page, cell_pos(cell_size, i + 1, 0), extract(page, cell_pos(cell_size, i, 0), cell_size * (len - i)))
    } else {
        page
    }
}

/// The page after cells `i + 1..len` moved one cell to the left.
pub open spec fn shifted_left(page: Seq<u8>, cell_size: nat, i: int, len: int) -> Seq<u8> {
    if i + 1 < len {
        splice(page, cell_pos(cell_size, i, 0), extract(page, cell_pos(cell_size, i + 1, 0), cell_size * (len - i - 1)))
    } else {
        page
    }
}

pub open spec fn with_len(h: BPTreeNodeHeader, len: u8) -> BPTreeNodeHeader {
    BPTreeNodeHeader { node_type: h.node_type, len: len, capacity: h.capacity }
}

/// Result and pages of inserting a cell at `cell_id` in page `id`, whose node header is `h`.
pub open spec fn insert_cell_spec(pages: Seq<Seq<u8>>, page_size: nat, id: PageId, cell_id: int, h: BPTreeNodeHeader) -> (PagerResult<()>, Seq<Seq<u8>>) {
    let cs = cell_size_spec(page_size, h.capacity);
    if !page_exists(pages, id) {
        (Err(PagerError::PageNotOpened(id)), pages)
    } else if cell_id < h.len && cell_pos(cs, h.len + 1, 0) > page_size {
        (Err(PagerError::PageOverflow), pages)
    } else {
        (Ok(()), pages.update(id.0 as int, splice(
            shifted_right(pages[id.0 as int], cs, cell_id, h.len as int),
            BP_TREE_HEADER_OFFSET as int,
            node_header_bytes(with_len(h, ((h.len + 1) % 256) as u8)),
        )))
    }
}

/// Result and pages of removing cell `cell_id` of page `id`, whose node header is `h`.
pub open spec fn remove_cell_spec(pages: Seq<Seq<u8>>, page_size: nat, id: PageId, cell_id: int, h: BPTreeNodeHeader) -> (PagerResult<()>, Seq<Seq<u8>>) {
    let cs = cell_size_spec(page_size, h.capacity);
    if !page_exists(pages, id) {
        (Err(PagerError::PageNotOpened(id)), pages)
    } else if cell_id + 1 < h.len && cell_pos(cs, h.len as int, 0) > page_size {
        (Err(PagerError::PageOverflow), pages)
    } else {
        (Ok(()), pages.update(id.0 as int, splice(
            shifted_left(pages[id.0 as int], cs, cell_id, h.len as int),
            BP_TREE_HEADER_OFFSET as int,
            node_header_bytes(with_len(h, ((h.len + 255) % 256) as u8)),
        )))
    }
}

/// Result and pages of `BPTreeNode::insert_cell`.
pub open spec fn insert_cell_checked(pages: Seq<Seq<u8>>, page_size: nat, id: PageId, cell_id: int) -> (PagerResult<()>, Seq<Seq<u8>>) {
    match type_check(pages, id, PageType::BTree) {
        Err(e) => (Err(e), pages),
        Ok(_) => {
            let h = node_header_at(pages[id.0 as int]);
            if cell_id > h.len {
                (Err(PagerError::SparseCell), pages)
            } else {
                insert_cell_spec(pages, page_size, id, cell_id, h)
            }
        },
    }
}

/// Inserting a cell at any place from the first cell to just past the last
/// one, in a node page with room for one more cell, succeeds and counts one
/// more cell (on a byte); a place further than just past the last cell is
/// refused as sparse.
pub proof fn lemma_insert_cell_up_to_len(pages: Seq<Seq<u8>>, page_size: nat, id: PageId, cell_id: int)
    requires
        pages_wf(pages, page_size),
        node_ok(pages, id),
        type_check(pages, id, PageType::BTree) is Ok,
    ensures
        ({
            let h = node_header_at(pages[id.0 as int]);
            let cs = cell_size_spec(page_size, h.capacity);
            let (r, after) = insert_cell_checked(pages, page_size, id, cell_id);
            &&& 0 <= cell_id <= h.len && cell_pos(cs, h.len + 1, 0) <= page_size ==> r is Ok
                && node_header_at(after[id.0 as int]).len == (h.len + 1) % 256
                && after.len() == pages.len()
            &&& cell_id > h.len ==> r == Err::<(), PagerError>(PagerError::SparseCell) && after == pages
        }),
{
    let h = node_header_at(pages[id.0 as int]);
    let cs = cell_size_spec(page_size, h.capacity);
    if 0 <= cell_id <= h.len && cell_pos(cs, h.len + 1, 0) <= page_size {
        assert(insert_cell_checked(pages, page_size, id, cell_id).0 is Ok);
        lemma_insert_cell_moves_cells(pages, page_size, id, cell_id as u8);
    }
}

/// Removing any existing cell of a node page whose cells lie in the page
/// succeeds and counts one cell less; a place at or past the number of cells
/// is refused as out of bounds.
pub proof fn lemma_remove_existing_cell(pages: Seq<Seq<u8>>, page_size: nat, id: PageId, cell_id: int)
    requires
        pages_wf(pages, page_size),
        node_ok(pages, id),
        type_check(pages, id, PageType::BTree) is Ok,
    ensures
        ({
            let h = node_header_at(pages[id.0 as int]);
            let cs = cell_size_spec(page_size, h.capacity);
            let (r, after) = remove_cell_checked(pages, page_size, id, cell_id);
            &&& 0 <= cell_id < h.len && cell_pos(cs, h.len as int, 0) <= page_size ==> r is Ok
                && node_header_at(after[id.0 as int]).len == h.len - 1
                && after.len() == pages.len()
            &&& cell_id >= h.len ==> r == Err::<(), PagerError>(PagerError::OutOfBoundCell) && after == pages
        }),
{
    let h = node_header_at(pages[id.0 as int]);
    let cs = cell_size_spec(page_size, h.capacity);
    if 0 <= cell_id < h.len && cell_pos(cs, h.len as int, 0) <= page_size {
        assert(remove_cell_checked(pages, page_size, id, cell_id).0 is Ok);
        lemma_remove_cell_moves_cells(pages, page_size, id, cell_id as u8);
    }
}

/// The cells of a node share out its body: `capacity` cells of the cell size
/// fill the body after the node header, with less than one cell to spare.
pub proof fn lemma_cells_share_body(page_size: nat, capacity: u8)
    requires
        capacity > 0,
        BP_TREE_BODY_OFFSET < page_size,
    ensures
        capacity * cell_size_spec(page_size, capacity) <= page_size - BP_TREE_BODY_OFFSET,
        page_size - BP_TREE_BODY_OFFSET < capacity * (cell_size_spec(page_size, capacity) + 1),
{
    let b = (page_size - BP_TREE_BODY_OFFSET) as int;
    let c = capacity as int;
    vstd::arithmetic::div_mod::lemma_fundamental_div_mod(b, c);
    vstd::arithmetic::div_mod::lemma_mod_bound(b, c);
    assert(c * (b / c + 1) == c * (b / c) + c) by (nonlinear_arith);
}

/// Result and pages of `BPTreeNode::remove_cell`.
pub open spec fn remove_cell_checked(pages: Seq<Seq<u8>>, page_size: nat, id: PageId, cell_id: int) -> (PagerResult<()>, Seq<Seq<u8>>) {
    match type_check(pages, id, PageType::BTree) {
        Err(e) => (Err(e), pages),
        Ok(_) => {
            let h = node_header_at(pages[id.0 as int]);
            if cell_id >= h.len {
                (Err(PagerError::OutOfBoundCell), pages)
            } else {
                remove_cell_spec(pages, page_size, id, cell_id, h)
            }
        },
    }
}

/// Where a cell access lands, once its header and bounds are checked; the
/// error when the page is no node or the cell is not one of its cells.
pub open spec fn cell_access(pages: Seq<Seq<u8>>, page_size: nat, id: PageId, cell_id: int, cell_offset: int) -> PagerResult<int> {
    match type_check(pages, id, PageType::BTree) {
        Err(e) => Err(e),
        Ok(_) => {
            let h = node_header_at(pages[id.0 as int]);
            if cell_id >= h.len {
                Err(PagerError::OutOfBoundCell)
            } else {
                Ok(cell_pos(cell_size_spec(page_size, h.capacity), cell_id, cell_offset))
            }
        },
    }
}

/// A page just made for node `id` with header `h`: page identifier, B+ tree
/// type and empty parent in its page header, the node header, zeroes after it.
pub open spec fn fresh_node_page(page: Seq<u8>, id: u64, h: BPTreeNodeHeader, page_size: nat) -> bool {
    &&& page.len() == page_size
    &&& extract(page, 0, 8) == le64(id)
    &&& page[10] == page_type_byte(PageType::BTree)
    &&& extract(page, 11, 8) == le64(0)
    &&& extract(page, BP_TREE_HEADER_OFFSET as int, 3) == node_header_bytes(h)
    &&& forall|i: int| BP_TREE_HEADER_OFFSET + 3 <= i < page_size ==> #[trigger] page[i] == 0u8
}

pub proof fn lemma_cell_arith(cs: nat, j: int, k: int)
    requires
        0 <= j <= k,
    ensures
        cs * j <= cs * k,
        cs * (j + 1) == cs * j + cs,
        cs * (k - j) == cs * k - cs * j,
{
    assert(cs * j <= cs * k) by (nonlinear_arith)
        requires
            0 <= j <= k,
    ;
    assert(cs * (j + 1) == cs * j + cs) by (nonlinear_arith);
    assert(cs * (k - j) == cs * k - cs * j) by (nonlinear_arith);
}

proof fn lemma_cell_pos_bound(cs: nat, page_size: nat, j: int)
    requires
        0 <= j <= 256,
        cs <= page_size,
        page_size <= u32::MAX,
    ensures
        cs * j <= 256 * u32::MAX,
{
    assert(cs * j <= 256 * u32::MAX) by (nonlinear_arith)
        requires
            0 <= j <= 256,
            cs <= page_size,
            page_size <= u32::MAX,
    ;
}

pub proof fn lemma_cell_size_bound(page_size: nat, capacity: u8)
    requires
        capacity > 0,
    ensures
        cell_size_spec(page_size, capacity) <= page_size,
{
    if BP_TREE_BODY_OFFSET < page_size {
        let b = (page_size - BP_TREE_BODY_OFFSET) as int;
        assert(b / capacity as int <= b) by (nonlinear_arith)
            requires
                b >= 0,
                capacity > 0,
        ;
    }
}

impl BPTreeNodeOffset {
    pub fn new(value: u64) -> (r: Self)
        ensures
            r.0 == value,
    {
        BPTreeNodeOffset(value)
    }

    /// Sum of two offsets.
    pub fn add(self, rhs: BPTreeNodeOffset) -> (r: Self)
        requires
            self.0 + rhs.0 <= u64::MAX,
        ensures
            r.0 == self.0 + rhs.0,
    {
        BPTreeNodeOffset(self.0 + rhs.0)
    }

    /// Position in the page of this offset from the start of the cells.
    pub fn to_page_offset(self) -> (r: u64)
        requires
            self.0 + BP_TREE_BODY_OFFSET <= u64::MAX,
        ensures
            r == self.0 + BP_TREE_BODY_OFFSET,
    {
        BP_TREE_BODY_OFFSET + self.0
    }
}

impl BPTreeCellSize {
    /// Size of each of `capacity` cells in a page of `page_size` bytes.
    pub fn from(page_size: u64, capacity: BPTreeCellCapacity) -> (r: Self)
        requires
            capacity > 0,
        ensures
            r.0 == cell_size_spec(page_size as nat, capacity),
    {
        BPTreeCellSize(Self::raw_cell_size(page_size, capacity))
    }

    fn raw_cell_size(page_size: u64, capacity: BPTreeCellCapacity) -> (r: u64)
        requires
            capacity > 0,
        ensures
            r == cell_size_spec(page_size as nat, capacity),
    {
        if BP_TREE_BODY_OFFSET >= page_size {
            return 0;
        }
        let body_size = page_size - BP_TREE_BODY_OFFSET;
        body_size / (capacity as u64)
    }

    /// Offset of the start of cell `cell_id` from the start of the cells.
    pub fn offset_of(self, cell_id: BPTreeCellId) -> (r: BPTreeNodeOffset)
        requires
            self.0 * cell_id.0 <= u64::MAX,
        ensures
            r.0 == self.0 * cell_id.0,
    {
        let id = cell_id.0 as u64;
        assert(id * self.0 == self.0 * cell_id.0) by (nonlinear_arith)
            requires
                id == cell_id.0,
        ;
        BPTreeNodeOffset(id * self.0)
    }
}

impl BPTreeCellId {
    pub fn from_u8(value: u8) -> (r: Self)
        ensures
            r.0 == value,
    {
        BPTreeCellId(value)
    }

    /// The index `rhs` cells further, wrapping around 256.
    pub fn plus(self, rhs: i8) -> (r: Self)
        ensures
            r.0 == ((self.0 + rhs + 256) % 256) as u8,
    {
        let v: u8 = if rhs >= 0 {
            self.0.wrapping_add(rhs as u8)
        } else {
            self.0.wrapping_sub((0i16 - rhs as i16) as u8)
        };
        BPTreeCellId(v)
    }

    /// The index `rhs` cells before, wrapping around 256.
    pub fn minus(self, rhs: i8) -> (r: Self)
        ensures
            r.0 == ((self.0 - rhs + 512) % 256) as u8,
    {
        let v: u8 = if rhs >= 0 {
            self.0.wrapping_sub(rhs as u8)
        } else {
            self.0.wrapping_add((0i16 - rhs as i16) as u8)
        };
        BPTreeCellId(v)
    }
}

impl BPTreeCellIndexes {
    /// The indexes of the `header.len` cells of a node.
    pub fn from_header(header: &BPTreeNodeHeader) -> (r: Self)
        ensures
            r.0@.len() == header.len,
            forall|i: int| 0 <= i < header.len ==> #[trigger] r.0@[i] == BPTreeCellId(i as u8),
    {
        let mut v: Vec<BPTreeCellId> = Vec::new();
        let mut i: u8 = 0;
        while i < header.len
            invariant
                i <= header.len,
                v@.len() == i,
                forall|k: int| 0 <= k < i ==> #[trigger] v@[k] == BPTreeCellId(k as u8),
            decreases header.len - i,
        {
            v.push(BPTreeCellId(i));
            i = i + 1;
        }
        BPTreeCellIndexes(v)
    }

    /// The indexes, in order.
    pub fn iter(&self) -> (r: &Vec<BPTreeCellId>)
        ensures
            r@ == self.0@,
    {
        &self.0
    }
}

} // verus!

verus! {

/// `new` is `old` with a node page of header `h` appended, and the page count of page 0 updated.
pub open spec fn node_appended(old: Seq<Seq<u8>>, new: Seq<Seq<u8>>, h: BPTreeNodeHeader, page_size: nat) -> bool {
    &&& new.len() == old.len() + 1
    &&& new[0] == splice(old[0], PAGE_COUNT_OFFSET as int, le64(new.len() as u64))
    &&& forall|i: int| 1 <= i < old.len() ==> #[trigger] new[i] == old[i]
    &&& fresh_node_page(new[old.len() as int], old.len() as u64, h, page_size)
}

impl BPTreeNode {
    /// Make a new page holding an empty node of the given type and capacity.
    pub fn new<P: Pager>(pager: &mut P, node_type: BPTreeNodeType, capacity: u8) -> (r: PagerResult<PageId>)
        requires
            pager_wf(*old(pager)),
        ensures
            pager_wf(*final(pager)),
            final(pager).page_size_view() == old(pager).page_size_view(),
            old(pager).pages_view().len() < MAX_PAGE_COUNT ==> {
                &&& r == Ok::<PageId, PagerError>(PageId(old(pager).pages_view().len() as u64))
                &&& node_appended(old(pager).pages_view(), final(pager).pages_view(),
                        BPTreeNodeHeader { node_type, len: 0, capacity }, old(pager).page_size_view())
            },
            old(pager).pages_view().len() >= MAX_PAGE_COUNT ==> {
                &&& r == Err::<PageId, PagerError>(PagerError::PageFull(PageId(old(pager).pages_view().len() as u64)))
                &&& final(pager).pages_view() == old(pager).pages_view()
            },
    {
        let page_id = pager.new_page(PageType::BTree)?;
        let ghost mid = pager.pages_view();
        let header = BPTreeNodeHeader::new(node_type, capacity);
        let w = Self::write_header_unchecked(pager, &page_id, &header);
        proof {
            lemma_node_header_roundtrip(header);
            let n = old(pager).pages_view().len();
            let p = pager.pages_view()[n as int];
            let q = mid[n as int];
            assert(extract(p, 0, 8) =~= extract(q, 0, 8));
            assert(extract(p, 11, 8) =~= extract(q, 11, 8));
            assert(extract(p, BP_TREE_HEADER_OFFSET as int, 3) =~= node_header_bytes(header));
            assert forall|i: int| 1 <= i < n implies #[trigger] pager.pages_view()[i] == old(pager).pages_view()[i] by {
                assert(mid[i] == old(pager).pages_view()[i]);
            }
        }
        match w {
            Ok(_) => Ok(page_id),
            Err(e) => Err(e),
        }
    }

    /// Write the node header, once the page is checked to hold a B+ tree node.
    pub fn write_header<P: Pager>(pager: &mut P, page_id: &PageId, header: &BPTreeNodeHeader) -> (r: PagerResult<()>)
        requires
            pager_wf(*old(pager)),
        ensures
            pager_wf(*final(pager)),
            final(pager).page_size_view() == old(pager).page_size_view(),
            match type_check(old(pager).pages_view(), *page_id, PageType::BTree) {
                Err(e) => r == Err::<(), PagerError>(e) && final(pager).pages_view() == old(pager).pages_view(),
                Ok(_) => write_spec(old(pager).pages_view(), old(pager).page_size_view(), final(pager).pages_view(),
                    *page_id, BP_TREE_HEADER_OFFSET as int, node_header_bytes(*header), r),
            },
    {
        pager.assert_page_type(page_id, &PageType::BTree)?;
        Self::write_header_unchecked(pager, page_id, header)
    }

    /// Write the node header, whatever the page holds.
    pub fn write_header_unchecked<P: Pager>(pager: &mut P, page_id: &PageId, header: &BPTreeNodeHeader) -> (r: PagerResult<()>)
        requires
            pager_wf(*old(pager)),
        ensures
            pager_wf(*final(pager)),
            final(pager).page_size_view() == old(pager).page_size_view(),
            write_spec(old(pager).pages_view(), old(pager).page_size_view(), final(pager).pages_view(),
                *page_id, BP_TREE_HEADER_OFFSET as int, node_header_bytes(*header), r),
            page_exists(old(pager).pages_view(), *page_id) ==> r is Ok,
    {
        let bytes = header.to_bytes();
        pager.write_all_to_page(page_id, bytes.as_slice(), BP_TREE_HEADER_OFFSET)
    }

    /// Read the node header, whatever the page holds; its first byte must be a node type.
    pub fn read_header_unchecked<P: Pager>(pager: &P, page_id: &PageId) -> (r: PagerResult<BPTreeNodeHeader>)
        requires
            pager_wf(*pager),
            page_exists(pager.pages_view(), *page_id) ==> pager.pages_view()[page_id.0 as int][BP_TREE_HEADER_OFFSET as int] <= 2,
        ensures
            r == (if page_exists(pager.pages_view(), *page_id) {
                Ok::<BPTreeNodeHeader, PagerError>(node_header_at(pager.pages_view()[page_id.0 as int]))
            } else {
                Err(PagerError::PageNotOpened(*page_id))
            }),
    {
        let bytes = pager.read_from_page(page_id, BP_TREE_HEADER_OFFSET, 3)?;
        Ok(BPTreeNodeHeader::from_bytes(bytes.as_slice()))
    }

    /// Read the node header, once the page is checked to hold a B+ tree node.
    pub fn read_header<P: Pager>(pager: &P, page_id: &PageId) -> (r: PagerResult<BPTreeNodeHeader>)
        requires
            pager_wf(*pager),
            node_ok(pager.pages_view(), *page_id),
        ensures
            r == (match type_check(pager.pages_view(), *page_id, PageType::BTree) {
                Err(e) => Err::<BPTreeNodeHeader, PagerError>(e),
                Ok(_) => Ok(node_header_at(pager.pages_view()[page_id.0 as int])),
            }),
    {
        pager.assert_page_type(page_id, &PageType::BTree)?;
        Self::read_header_unchecked(pager, page_id)
    }

    /// Position in the page of byte `cell_offset` of cell `cell_id`.
    fn cell_position(cell_size: &BPTreeCellSize, cell_id: &BPTreeCellId, cell_offset: &BPTreeNodeOffset) -> (r: u64)
        requires
            cell_size.0 <= u32::MAX,
            cell_offset.0 <= MAX_CELL_OFFSET,
        ensures
            r == cell_pos(cell_size.0 as nat, cell_id.0 as int, cell_offset.0 as int),
    {
        proof { lemma_cell_pos_bound(cell_size.0 as nat, u32::MAX as nat, cell_id.0 as int); }
        let base = cell_size.offset_of(*cell_id);
        let off = base.add(*cell_offset);
        off.to_page_offset()
    }

    /// Write `cell` at offset `cell_offset` of cell `cell_id`, without checking
    /// that the cell is one of the node's cells.
    pub fn write_cell_unchecked<P: Pager>(
        pager: &mut P,
        page_id: &PageId,
        cell_id: &BPTreeCellId,
        cell_size: &BPTreeCellSize,
        cell_offset: &BPTreeNodeOffset,
        cell: &[u8],
    ) -> (r: PagerResult<()>)
        requires
            pager_wf(*old(pager)),
            cell_size.0 <= u32::MAX,
            cell_offset.0 <= MAX_CELL_OFFSET,
        ensures
            pager_wf(*final(pager)),
            final(pager).page_size_view() == old(pager).page_size_view(),
            write_spec(old(pager).pages_view(), old(pager).page_size_view(), final(pager).pages_view(), *page_id,
                cell_pos(cell_size.0 as nat, cell_id.0 as int, cell_offset.0 as int), cell@, r),
    {
        let offset = Self::cell_position(cell_size, cell_id, cell_offset);
        pager.write_all_to_page(page_id, cell, offset)
    }

    /// Write `cell` at offset `cell_offset` of cell `cell_id` of the node.
    pub fn write_cell<P: Pager>(
        pager: &mut P,
        page_id: &PageId,
        cell_id: &BPTreeCellId,
        cell_offset: &BPTreeNodeOffset,
        cell: &[u8],
    ) -> (r: PagerResult<()>)
        requires
            pager_wf(*old(pager)),
            node_ok(old(pager).pages_view(), *page_id),
            cell_offset.0 <= MAX_CELL_OFFSET,
        ensures
            pager_wf(*final(pager)),
            final(pager).page_size_view() == old(pager).page_size_view(),
            match cell_access(old(pager).pages_view(), old(pager).page_size_view(), *page_id, cell_id.0 as int, cell_offset.0 as int) {
                Err(e) => r == Err::<(), PagerError>(e) && final(pager).pages_view() == old(pager).pages_view(),
                Ok(pos) => write_spec(old(pager).pages_view(), old(pager).page_size_view(), final(pager).pages_view(), *page_id, pos, cell@, r),
            },
    {
        let header = Self::read_header(pager, page_id)?;
        let cell_size = BPTreeCellSize::from(pager.get_page_size(), header.capacity);
        proof { lemma_cell_size_bound(pager.page_size_view(), header.capacity); }
        if cell_id.0 >= header.len {
            return Err(PagerError::OutOfBoundCell);
        }
        Self::write_cell_unchecked(pager, page_id, cell_id, &cell_size, cell_offset, cell)
    }

    /// Read `len` bytes at offset `cell_offset` of cell `cell_id`, without
    /// checking that the cell is one of the node's cells.
    pub fn read_cell_unchecked<P: Pager>(
        pager: &P,
        page_id: &PageId,
        cell_id: &BPTreeCellId,
        cell_size: &BPTreeCellSize,
        cell_offset: &BPTreeNodeOffset,
        len: usize,
    ) -> (r: PagerResult<Vec<u8>>)
        requires
            pager_wf(*pager),
            cell_size.0 <= u32::MAX,
            cell_offset.0 <= MAX_CELL_OFFSET,
        ensures
            match r {
                Ok(v) => read_spec(pager.pages_view(), pager.page_size_view(), *page_id,
                    cell_pos(cell_size.0 as nat, cell_id.0 as int, cell_offset.0 as int), len as int) == Ok::<Seq<u8>, PagerError>(v@),
                Err(e) => read_spec(pager.pages_view(), pager.page_size_view(), *page_id,
                    cell_pos(cell_size.0 as nat, cell_id.0 as int, cell_offset.0 as int), len as int) == Err::<Seq<u8>, PagerError>(e),
            },
    {
        let offset = Self::cell_position(cell_size, cell_id, cell_offset);
        pager.read_from_page(page_id, offset, len)
    }

    /// Read `len` bytes at offset `cell_offset` of cell `cell_id` of the node.
    pub fn read_cell<P: Pager>(
        pager: &P,
        page_id: &PageId,
        cell_id: &BPTreeCellId,
        cell_offset: &BPTreeNodeOffset,
        len: usize,
    ) -> (r: PagerResult<Vec<u8>>)
        requires
            pager_wf(*pager),
            node_ok(pager.pages_view(), *page_id),
            cell_offset.0 <= MAX_CELL_OFFSET,
        ensures
            match cell_access(pager.pages_view(), pager.page_size_view(), *page_id, cell_id.0 as int, cell_offset.0 as int) {
                Err(e) => r == Err::<Vec<u8>, PagerError>(e),
                Ok(pos) => match r {
                    Ok(v) => read_spec(pager.pages_view(), pager.page_size_view(), *page_id, pos, len as int) == Ok::<Seq<u8>, PagerError>(v@),
                    Err(e) => read_spec(pager.pages_view(), pager.page_size_view(), *page_id, pos, len as int) == Err::<Seq<u8>, PagerError>(e),
                },
            },
    {
        let header = Self::read_header(pager, page_id)?;
        let cell_size = BPTreeCellSize::from(pager.get_page_size(), header.capacity);
        proof { lemma_cell_size_bound(pager.page_size_view(), header.capacity); }
        if cell_id.0 >= header.len {
            return Err(PagerError::OutOfBoundCell);
        }
        Self::read_cell_unchecked(pager, page_id, cell_id, &cell_size, cell_offset, len)
    }
}

} // verus!

verus! {

impl BPTreeNode {
    /// Move cells `cell_id.0 - 1 + 1 ..` one cell to the left: cells
    /// `cell_id..len` land on `cell_id - 1..len - 1`.
    fn left_shift_cells<P: Pager>(pager: &mut P, page_id: &PageId, cell_id: &BPTreeCellId, header: &BPTreeNodeHeader) -> (r: PagerResult<()>)
        requires
            pager_wf(*old(pager)),
            1 <= cell_id.0 <= header.len,
            header.capacity > 0,
        ensures
            pager_wf(*final(pager)),
            final(pager).page_size_view() == old(pager).page_size_view(),
            ({
                let pages = old(pager).pages_view();
                let ps = old(pager).page_size_view();
                let cs = cell_size_spec(ps, header.capacity);
                let i = cell_id.0 - 1;
                if cell_id.0 >= header.len {
                    r is Ok && final(pager).pages_view() == pages
                } else if !page_exists(pages, *page_id) {
                    r == Err::<(), PagerError>(PagerError::PageNotOpened(*page_id)) && final(pager).pages_view() == pages
                } else if cell_pos(cs, header.len as int, 0) > ps {
                    r == Err::<(), PagerError>(PagerError::PageOverflow) && final(pager).pages_view() == pages
                } else {
                    r is Ok && final(pager).pages_view() == pages.update(page_id.0 as int,
                        shifted_left(pages[page_id.0 as int], cs, i, header.len as int))
                }
            }),
    {
        if cell_id.0 >= header.len {
            return Ok(());
        }
        let cell_size = BPTreeCellSize::from(pager.get_page_size(), header.capacity);
        let ghost cs = cell_size.0 as nat;
        proof {
            lemma_cell_size_bound(pager.page_size_view(), header.capacity);
            lemma_cell_pos_bound(cs, pager.page_size_view(), header.len as int);
            lemma_cell_arith(cs, cell_id.0 - 1, cell_id.0 as int);
            lemma_cell_arith(cs, cell_id.0 as int, header.len as int);
            lemma_cell_arith(cs, cell_id.0 - 1, header.len as int);
        }
        let zero = BPTreeNodeOffset(0);
        let head = Self::cell_position(&cell_size, cell_id, &zero);
        let tail = Self::cell_position(&cell_size, &BPTreeCellId(header.len), &zero);
        let base = Self::cell_position(&cell_size, &BPTreeCellId(cell_id.0 - 1), &zero);
        let size = usize_saturating(tail - head);
        move_page_section(pager, page_id, &head, page_id, &base, size)
    }

    /// Move cells `cell_id..len` one cell to the right.
    fn right_shift_cells<P: Pager>(pager: &mut P, page_id: &PageId, cell_id: &BPTreeCellId, header: &BPTreeNodeHeader) -> (r: PagerResult<()>)
        requires
            pager_wf(*old(pager)),
            cell_id.0 <= header.len,
            header.capacity > 0,
        ensures
            pager_wf(*final(pager)),
            final(pager).page_size_view() == old(pager).page_size_view(),
            ({
                let pages = old(pager).pages_view();
                let ps = old(pager).page_size_view();
                let cs = cell_size_spec(ps, header.capacity);
                if cell_id.0 >= header.len {
                    r is Ok && final(pager).pages_view() == pages
                } else if !page_exists(pages, *page_id) {
                    r == Err::<(), PagerError>(PagerError::PageNotOpened(*page_id)) && final(pager).pages_view() == pages
                } else if cell_pos(cs, header.len + 1, 0) > ps {
                    r == Err::<(), PagerError>(PagerError::PageOverflow) && final(pager).pages_view() == pages
                } else {
                    r is Ok && final(pager).pages_view() == pages.update(page_id.0 as int,
                        shifted_right(pages[page_id.0 as int], cs, cell_id.0 as int, header.len as int))
                }
            }),
    {
        if cell_id.0 >= header.len {
            return Ok(());
        }
        let cell_size = BPTreeCellSize::from(pager.get_page_size(), header.capacity);
        let ghost cs = cell_size.0 as nat;
        proof {
            lemma_cell_size_bound(pager.page_size_view(), header.capacity);
            lemma_cell_pos_bound(cs, pager.page_size_view(), header.len + 1);
            lemma_cell_arith(cs, cell_id.0 as int, header.len as int);
            lemma_cell_arith(cs, cell_id.0 + 1, header.len + 1);
            lemma_cell_arith(cs, header.len as int, header.len + 1);
        }
        let zero = BPTreeNodeOffset(0);
        let head = Self::cell_position(&cell_size, cell_id, &zero);
        let tail = Self::cell_position(&cell_size, &BPTreeCellId(header.len), &zero);
        let base = Self::cell_position(&cell_size, &BPTreeCellId(cell_id.0 + 1), &zero);
        let size = usize_saturating(tail - head);
        move_page_section(pager, page_id, &head, page_id, &base, size)
    }
}

} // verus!

verus! {

impl BPTreeNode {
    /// Remove cell `cell_id` given the node header, shifting the following cells left.
    pub fn remove_cell_unchecked<P: Pager>(
        pager: &mut P,
        page_id: &PageId,
        cell_id: &BPTreeCellId,
        header: &mut BPTreeNodeHeader,
    ) -> (r: PagerResult<()>)
        requires
            pager_wf(*old(pager)),
            cell_id.0 < old(header).len,
            old(header).capacity > 0,
        ensures
            pager_wf(*final(pager)),
            final(pager).page_size_view() == old(pager).page_size_view(),
            (r, final(pager).pages_view()) == remove_cell_spec(old(pager).pages_view(), old(pager).page_size_view(), *page_id, cell_id.0 as int, *old(header)),
            *final(header) == (if r is Ok || cell_id.0 + 1 >= old(header).len {
                with_len(*old(header), ((old(header).len + 255) % 256) as u8)
            } else {
                *old(header)
            }),
    {
        let next = cell_id.plus(1);
        Self::left_shift_cells(pager, page_id, &next, header)?;
        header.len = header.len.wrapping_sub(1u8);
        let w = Self::write_header_unchecked(pager, page_id, header);
        proof {
            lemma_node_header_roundtrip(*header);
            let pages = old(pager).pages_view();
            if page_exists(pages, *page_id) {
                let cs = cell_size_spec(old(pager).page_size_view(), old(header).capacity);
                assert(pager.pages_view() =~= pages.update(page_id.0 as int, splice(
                    shifted_left(pages[page_id.0 as int], cs, cell_id.0 as int, old(header).len as int),
                    BP_TREE_HEADER_OFFSET as int,
                    node_header_bytes(with_len(*old(header), ((old(header).len + 255) % 256) as u8)),
                )));
            }
        }
        w
    }

    /// Remove cell `cell_id` of the node, shifting the following cells left.
    pub fn remove_cell<P: Pager>(pager: &mut P, page_id: &PageId, cell_id: &BPTreeCellId) -> (r: PagerResult<()>)
        requires
            pager_wf(*old(pager)),
            node_ok(old(pager).pages_view(), *page_id),
        ensures
            pager_wf(*final(pager)),
            final(pager).page_size_view() == old(pager).page_size_view(),
            (r, final(pager).pages_view()) == remove_cell_checked(old(pager).pages_view(), old(pager).page_size_view(), *page_id, cell_id.0 as int),
    {
        let mut header = Self::read_header(pager, page_id)?;
        if cell_id.0 >= header.len {
            return Err(PagerError::OutOfBoundCell);
        }
        Self::remove_cell_unchecked(pager, page_id, cell_id, &mut header)
    }

    /// Insert a cell at `cell_id` given the node header, shifting the cells from it right.
    pub fn insert_cell_unchecked<P: Pager>(
        pager: &mut P,
        page_id: &PageId,
        cell_id: &BPTreeCellId,
        header: &mut BPTreeNodeHeader,
    ) -> (r: PagerResult<()>)
        requires
            pager_wf(*old(pager)),
            cell_id.0 <= old(header).len,
            old(header).capacity > 0,
        ensures
            pager_wf(*final(pager)),
            final(pager).page_size_view() == old(pager).page_size_view(),
            (r, final(pager).pages_view()) == insert_cell_spec(old(pager).pages_view(), old(pager).page_size_view(), *page_id, cell_id.0 as int, *old(header)),
            *final(header) == (if r is Ok || cell_id.0 >= old(header).len {
                with_len(*old(header), ((old(header).len + 1) % 256) as u8)
            } else {
                *old(header)
            }),
    {
        Self::right_shift_cells(pager, page_id, cell_id, header)?;
        header.len = header.len.wrapping_add(1u8);
        let w = Self::write_header_unchecked(pager, page_id, header);
        proof {
            lemma_node_header_roundtrip(*header);
            let pages = old(pager).pages_view();
            if page_exists(pages, *page_id) {
                let cs = cell_size_spec(old(pager).page_size_view(), old(header).capacity);
                assert(pager.pages_view() =~= pages.update(page_id.0 as int, splice(
                    shifted_right(pages[page_id.0 as int], cs, cell_id.0 as int, old(header).len as int),
                    BP_TREE_HEADER_OFFSET as int,
                    node_header_bytes(with_len(*old(header), ((old(header).len + 1) % 256) as u8)),
                )));
            }
        }
        w
    }

    /// Insert a cell at `cell_id` of the node, shifting the cells from it right.
    pub fn insert_cell<P: Pager>(pager: &mut P, page_id: &PageId, cell_id: &BPTreeCellId) -> (r: PagerResult<()>)
        requires
            pager_wf(*old(pager)),
            node_ok(old(pager).pages_view(), *page_id),
        ensures
            pager_wf(*final(pager)),
            final(pager).page_size_view() == old(pager).page_size_view(),
            (r, final(pager).pages_view()) == insert_cell_checked(old(pager).pages_view(), old(pager).page_size_view(), *page_id, cell_id.0 as int),
    {
        let mut header = Self::read_header(pager, page_id)?;
        if cell_id.0 > header.len {
            return Err(PagerError::SparseCell);
        }
        Self::insert_cell_unchecked(pager, page_id, cell_id, &mut header)
    }
}

} // verus!

verus! {

proof fn lemma_cell_of_splice(p: Seq<u8>, cs: nat, j: int, off: int, data: Seq<u8>, src: int)
    requires
        0 <= off,
        off + data.len() <= p.len(),
        off <= cell_pos(cs, j, 0),
        cell_pos(cs, j, 0) + cs <= off + data.len(),
        0 <= src,
        forall|k: int| 0 <= k < data.len() ==> #[trigger] data[k] == p[src + k],
        src + (cell_pos(cs, j, 0) - off) + cs <= p.len(),
    ensures
        cell_bytes(splice(p, off, data), cs, j) =~= extract(p, src + (cell_pos(cs, j, 0) - off), cs as int),
{
}

proof fn lemma_cell_outside_splice(p: Seq<u8>, cs: nat, j: int, off: int, data: Seq<u8>)
    requires
        0 <= off,
        off + data.len() <= p.len(),
        cell_pos(cs, j, 0) >= 0,
        cell_pos(cs, j, 0) + cs <= p.len(),
        cell_pos(cs, j, 0) + cs <= off || off + data.len() <= cell_pos(cs, j, 0),
    ensures
        cell_bytes(splice(p, off, data), cs, j) =~= cell_bytes(p, cs, j),
{
}

/// Inserting a cell at `cell_id` adds one to the number of cells, keeps the
/// cells up to `cell_id`, moves each later cell one place up, keeps the page
/// header and leaves every other page as it was.
pub proof fn lemma_insert_cell_moves_cells(pages: Seq<Seq<u8>>, page_size: nat, id: PageId, cell: u8)
    requires
        pages_wf(pages, page_size),
        node_ok(pages, id),
        insert_cell_checked(pages, page_size, id, cell as int).0 is Ok,
    ensures
        ({
            let cell_id = cell as int;
            let new_pages = insert_cell_checked(pages, page_size, id, cell_id).1;
            let p = pages[id.0 as int];
            let q = new_pages[id.0 as int];
            let h = node_header_at(p);
            let cs = cell_size_spec(page_size, h.capacity);
            &&& new_pages.len() == pages.len()
            &&& forall|k: int| 0 <= k < pages.len() && k != id.0 ==> #[trigger] new_pages[k] == pages[k]
            &&& q.len() == p.len()
            &&& extract(q, 0, 19) == extract(p, 0, 19)
            &&& node_header_at(q) == with_len(h, ((h.len + 1) % 256) as u8)
            &&& forall|j: int| 0 <= j <= cell_id && cell_pos(cs, j + 1, 0) <= page_size
                ==> #[trigger] cell_bytes(q, cs, j) == cell_bytes(p, cs, j)
            &&& forall|j: int| cell_id < j <= h.len ==> #[trigger] cell_bytes(q, cs, j) == cell_bytes(p, cs, j - 1)
        }),
{
    let cell_id = cell as int;
    let new_pages = insert_cell_checked(pages, page_size, id, cell_id).1;
    let p = pages[id.0 as int];
    let q = new_pages[id.0 as int];
    let h = node_header_at(p);
    let cs = cell_size_spec(page_size, h.capacity);
    let len = h.len as int;
    let s = shifted_right(p, cs, cell_id, len);
    let hb = node_header_bytes(with_len(h, ((h.len + 1) % 256) as u8));
    lemma_node_header_roundtrip(with_len(h, ((h.len + 1) % 256) as u8));
    lemma_cell_size_bound(page_size, h.capacity);
    if cell_id < len {
        lemma_cell_arith(cs, cell_id, len);
        lemma_cell_arith(cs, cell_id + 1, len + 1);
        lemma_cell_arith(cs, len, len + 1);
    }
    assert(s.len() == p.len());
    assert(q == splice(s, 19, hb));
    assert(extract(q, 0, 19) =~= extract(p, 0, 19));
    assert(q.subrange(19, 22) =~= hb);
    assert forall|j: int| 0 <= j <= cell_id && cell_pos(cs, j + 1, 0) <= page_size
        implies #[trigger] cell_bytes(q, cs, j) == cell_bytes(p, cs, j) by {
        lemma_cell_arith(cs, j, j + 1);
        if cell_id < len {
            lemma_cell_arith(cs, j + 1, cell_id + 1);
            lemma_cell_outside_splice(p, cs, j, cell_pos(cs, cell_id + 1, 0), extract(p, cell_pos(cs, cell_id, 0), cs * (len - cell_id)));
        }
        lemma_cell_outside_splice(s, cs, j, 19, hb);
    }
    assert forall|j: int| cell_id < j <= h.len implies #[trigger] cell_bytes(q, cs, j) == cell_bytes(p, cs, j - 1) by {
        lemma_cell_arith(cs, cell_id + 1, j);
        lemma_cell_arith(cs, j, len + 1);
        lemma_cell_arith(cs, j - 1, j);
        lemma_cell_arith(cs, cell_id, j - 1);
        assert(cs * (len - cell_id) == cs * (len + 1) - cs * (cell_id + 1)) by (nonlinear_arith);
        assert(cs * j + cs <= cs * (len + 1)) by (nonlinear_arith)
            requires
                j <= len,
        ;
        assert(cs * (j - 1) == cs * j - cs) by (nonlinear_arith);
        let data = extract(p, cell_pos(cs, cell_id, 0), cs * (len - cell_id));
        lemma_cell_of_splice(p, cs, j, cell_pos(cs, cell_id + 1, 0), data, cell_pos(cs, cell_id, 0));
        lemma_cell_outside_splice(s, cs, j, 19, hb);
    }
}

/// Removing cell `cell_id` takes one from the number of cells, keeps the
/// cells before it, moves each later cell one place down, keeps the page
/// header and leaves every other page as it was.
pub proof fn lemma_remove_cell_moves_cells(pages: Seq<Seq<u8>>, page_size: nat, id: PageId, cell: u8)
    requires
        pages_wf(pages, page_size),
        node_ok(pages, id),
        remove_cell_checked(pages, page_size, id, cell as int).0 is Ok,
    ensures
        ({
            let cell_id = cell as int;
            let new_pages = remove_cell_checked(pages, page_size, id, cell_id).1;
            let p = pages[id.0 as int];
            let q = new_pages[id.0 as int];
            let h = node_header_at(p);
            let cs = cell_size_spec(page_size, h.capacity);
            &&& new_pages.len() == pages.len()
            &&& forall|k: int| 0 <= k < pages.len() && k != id.0 ==> #[trigger] new_pages[k] == pages[k]
            &&& q.len() == p.len()
            &&& extract(q, 0, 19) == extract(p, 0, 19)
            &&& node_header_at(q) == with_len(h, (h.len - 1) as u8)
            &&& forall|j: int| 0 <= j < cell_id && cell_pos(cs, j + 1, 0) <= page_size
                ==> #[trigger] cell_bytes(q, cs, j) == cell_bytes(p, cs, j)
            &&& forall|j: int| cell_id <= j < h.len - 1 ==> #[trigger] cell_bytes(q, cs, j) == cell_bytes(p, cs, j + 1)
        }),
{
    let cell_id = cell as int;
    let new_pages = remove_cell_checked(pages, page_size, id, cell_id).1;
    let p = pages[id.0 as int];
    let q = new_pages[id.0 as int];
    let h = node_header_at(p);
    let cs = cell_size_spec(page_size, h.capacity);
    let len = h.len as int;
    let s = shifted_left(p, cs, cell_id, len);
    let hb = node_header_bytes(with_len(h, ((h.len + 255) % 256) as u8));
    lemma_node_header_roundtrip(with_len(h, ((h.len + 255) % 256) as u8));
    lemma_cell_size_bound(page_size, h.capacity);
    if cell_id + 1 < len {
        lemma_cell_arith(cs, cell_id, cell_id + 1);
        lemma_cell_arith(cs, cell_id + 1, len);
        lemma_cell_arith(cs, cell_id, len - 1);
        lemma_cell_arith(cs, len - 1, len);
    }
    assert(s.len() == p.len());
    assert(q == splice(s, 19, hb));
    assert(extract(q, 0, 19) =~= extract(p, 0, 19));
    assert(q.subrange(19, 22) =~= hb);
    assert(((h.len + 255) % 256) as u8 == (h.len - 1) as u8);
    assert forall|j: int| 0 <= j < cell_id && cell_pos(cs, j + 1, 0) <= page_size
        implies #[trigger] cell_bytes(q, cs, j) == cell_bytes(p, cs, j) by {
        lemma_cell_arith(cs, j, j + 1);
        if cell_id + 1 < len {
            lemma_cell_arith(cs, j + 1, cell_id);
            lemma_cell_outside_splice(p, cs, j, cell_pos(cs, cell_id, 0), extract(p, cell_pos(cs, cell_id + 1, 0), cs * (len - cell_id - 1)));
        }
        lemma_cell_outside_splice(s, cs, j, 19, hb);
    }
    assert forall|j: int| cell_id <= j < h.len - 1 implies #[trigger] cell_bytes(q, cs, j) == cell_bytes(p, cs, j + 1) by {
        lemma_cell_arith(cs, cell_id, j);
        lemma_cell_arith(cs, j + 1, len - 1);
        lemma_cell_arith(cs, j, j + 1);
        lemma_cell_arith(cs, j + 1, len);
        lemma_cell_arith(cs, cell_id + 1, j + 1);
        assert(cs * (len - cell_id - 1) == cs * len - cs * (cell_id + 1)) by (nonlinear_arith);
        assert(cs * (len - cell_id - 1) == cs * (len - 1) - cs * cell_id) by (nonlinear_arith);
        assert(cs * j + cs <= cs * (len - 1)) by (nonlinear_arith)
            requires
                j < len - 1,
        ;
        assert(cs * (j + 1) == cs * j + cs) by (nonlinear_arith);
        let data = extract(p, cell_pos(cs, cell_id + 1, 0), cs * (len - cell_id - 1));
        lemma_cell_of_splice(p, cs, j, cell_pos(cs, cell_id, 0), data, cell_pos(cs, cell_id + 1, 0));
        lemma_cell_outside_splice(s, cs, j, 19, hb);
    }
}

/// Bytes written in a cell of a node read back from the same place, and the
/// node stays a node with the same cells.
pub proof fn lemma_write_then_read_cell(pages: Seq<Seq<u8>>, page_size: nat, id: PageId, cell: u8, cell_offset: int, data: Seq<u8>)
    requires
        pages_wf(pages, page_size),
        cell_offset >= 0,
        cell_access(pages, page_size, id, cell as int, cell_offset) is Ok,
        access_check(pages, page_size, id, cell_access(pages, page_size, id, cell as int, cell_offset)->Ok_0, data.len() as int) is Ok,
    ensures
        ({
            let pos = cell_access(pages, page_size, id, cell as int, cell_offset)->Ok_0;
            let new_pages = write_page_bytes(pages, id, pos, data);
            &&& cell_access(new_pages, page_size, id, cell as int, cell_offset) == Ok::<int, PagerError>(pos)
            &&& read_spec(new_pages, page_size, id, pos, data.len() as int) == Ok::<Seq<u8>, PagerError>(data)
        }),
{
    let cell_id = cell as int;
    let pos = cell_access(pages, page_size, id, cell_id, cell_offset)->Ok_0;
    let p = pages[id.0 as int];
    let new_pages = write_page_bytes(pages, id, pos, data);
    let q = new_pages[id.0 as int];
    let h = node_header_at(p);
    let cs = cell_size_spec(page_size, h.capacity);
    assert(cs * cell_id >= 0) by (nonlinear_arith)
        requires
            cell_id >= 0,
    ;
    assert(q[10] == p[10]);
    assert(q.subrange(19, 22) =~= p.subrange(19, 22));
    assert(extract(q, pos, data.len() as int) =~= data);
}

} // verus!
