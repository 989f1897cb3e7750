//! Kinds of nodes of the stream layout.
use vstd::prelude::*;

verus! {

#[derive(Debug, Clone, Copy, PartialEq, Eq, Structural)]
pub enum BPTreeNodeType {
    Leaf,
    Branch,
}

/// The byte a node kind is stored as: 0 for a branch, 1 for a leaf.
pub open spec fn node_kind_byte(t: BPTreeNodeType) -> u8 {
    match t {
        BPTreeNodeType::Branch => 0,
        BPTreeNodeType::Leaf => 1,
    }
}

/// The node kind a byte designates, for the bytes 0 and 1.
pub open spec fn node_kind_of_byte(b: u8) -> BPTreeNodeType
    recommends
        b <= 1,
{
    if b == 0 { BPTreeNodeType::Branch } else { BPTreeNodeType::Leaf }
}

impl BPTreeNodeType {
    pub fn to_byte(&self) -> (r: u8)
        ensures
            r == node_kind_byte(*self),
    {
        match self {
            BPTreeNodeType::Branch => 0,
            BPTreeNodeType::Leaf => 1,
        }
    }

    /// The node kind stored as `value`, which must be 0 or 1.
    pub fn from_byte(value: u8) -> (r: Self)
        requires
            value <= 1,
        ensures
            r == node_kind_of_byte(value),
    {
        if value == 0 {
            BPTreeNodeType::Branch
        } else {
            BPTreeNodeType::Leaf
        }
    }
}

} // verus!
