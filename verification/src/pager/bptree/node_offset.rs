//! Offsets counted from the base of a node's body.
use vstd::prelude::*;

verus! {

/// Offset from the base of a node's body.
#[derive(Debug, Clone, Copy, PartialEq, Eq, Structural)]
pub struct BPTreeNodeOffset(pub u64);

impl BPTreeNodeOffset {
    pub fn new(value: u64) -> (r: Self)
        ensures
            r.0 == value,
    {
        BPTreeNodeOffset(value)
    }

    /// Sum of two offsets.
    pub fn add(self, rhs: BPTreeNodeOffset) -> (r: Self)
        requires
            self.0 + rhs.0 <= u64::MAX,
        ensures
            r.0 == self.0 + rhs.0,
    {
        BPTreeNodeOffset(self.0 + rhs.0)
    }

    /// Position in the page of this offset, for a body that starts at `base`.
    pub fn to_page_offset(self, base: &u64) -> (r: u64)
        requires
            *base + self.0 <= u64::MAX,
        ensures
            r == *base + self.0,
    {
        *base + self.0
    }
}

} // verus!
