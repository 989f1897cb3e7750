//! Indexes of the cells of a node.
use vstd::prelude::*;

verus! {

/// Index of a cell in a node.
#[derive(Debug, Clone, Copy, PartialEq, Eq, Structural)]
pub struct BPTreeCellId(pub u8);

impl BPTreeCellId {
    pub fn from_u8(value: u8) -> (r: Self)
        ensures
            r.0 == value,
    {
        BPTreeCellId(value)
    }

    /// The index `rhs` cells further, wrapping around 256.
    pub fn plus(self, rhs: i8) -> (r: Self)
        ensures
            r.0 == ((self.0 + rhs + 256) % 256) as u8,
    {
        let v: u8 = if rhs >= 0 {
            self.0.wrapping_add(rhs as u8)
        } else {
            self.0.wrapping_sub((0i16 - rhs as i16) as u8)
        };
        BPTreeCellId(v)
    }

    /// The index `rhs` cells before, wrapping around 256.
    pub fn minus(self, rhs: i8) -> (r: Self)
        ensures
            r.0 == ((self.0 - rhs + 512) % 256) as u8,
    {
        let v: u8 = if rhs >= 0 {
            self.0.wrapping_sub(rhs as u8)
        } else {
            self.0.wrapping_add((0i16 - rhs as i16) as u8)
        };
        BPTreeCellId(v)
    }
}

/// The indexes of a run of cells, in order.
pub struct BPTreeCellIndexes(pub Vec<BPTreeCellId>);

impl BPTreeCellIndexes {
    /// The indexes 0, 1, ..., `len - 1`.
    pub fn new(len: u8) -> (r: Self)
        ensures
            r.0@.len() == len,
            forall|i: int| 0 <= i < len ==> #[trigger] r.0@[i] == BPTreeCellId(i as u8),
    {
        let mut v: Vec<BPTreeCellId> = Vec::new();
        let mut i: u8 = 0;
        while i < len
            invariant
                i <= len,
                v@.len() == i,
                forall|k: int| 0 <= k < i ==> #[trigger] v@[k] == BPTreeCellId(k as u8),
            decreases len - i,
        {
            v.push(BPTreeCellId(i));
            i = i + 1;
        }
        BPTreeCellIndexes(v)
    }

    /// The indexes, in order.
    pub fn iter(&self) -> (r: &Vec<BPTreeCellId>)
        ensures
            r@ == self.0@,
    {
        &self.0
    }
}

} // verus!
