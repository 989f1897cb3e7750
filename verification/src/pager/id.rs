//! Page identifiers.
use vstd::prelude::*;

verus! {

/// Number of a page. Identifier 0 designates the pager's own header page,
/// so a stored 0 reads back as "no page".
#[derive(Debug, Clone, Copy, PartialEq, Eq, Structural)]
pub struct PageId(pub u64);

impl PageId {
    /// Number of bytes a page identifier occupies once encoded.
    pub fn size_of() -> (r: u64)
        ensures
            r == 8,
    {
        8
    }

    pub fn new(val: u64) -> (r: Self)
        ensures
            r.0 == val,
    {
        PageId(val)
    }

    pub fn value(&self) -> (r: u64)
        ensures
            r == self.0,
    {
        self.0
    }
}

} // verus!

verus! {

/// The integer an optional page identifier is stored as: 0 stands for "none".
pub open spec fn opt_page_id_raw(o: Option<PageId>) -> u64 {
    match o {
        Some(id) => id.0,
        None => 0,
    }
}

/// The optional page identifier a stored integer designates.
pub open spec fn opt_page_id_of_raw(v: u64) -> Option<PageId> {
    if v == 0 {
        None
    } else {
        Some(PageId(v))
    }
}

/// An optional identifier survives being stored unless it is `Some(PageId(0))`,
/// which reads back as `None`.
pub open spec fn opt_page_id_storable(o: Option<PageId>) -> bool {
    o != Some(PageId(0))
}

pub proof fn lemma_opt_page_id_roundtrip(o: Option<PageId>)
    requires
        opt_page_id_storable(o),
    ensures
        opt_page_id_of_raw(opt_page_id_raw(o)) == o,
{
}

pub fn opt_page_id_to_raw(o: Option<PageId>) -> (r: u64)
    ensures
        r == opt_page_id_raw(o),
{
    match o {
        Some(id) => id.0,
        None => 0,
    }
}

pub fn opt_page_id_from_raw(v: u64) -> (r: Option<PageId>)
    ensures
        r == opt_page_id_of_raw(v),
{
    if v == 0 {
        None
    } else {
        Some(PageId(v))
    }
}

} // verus!
