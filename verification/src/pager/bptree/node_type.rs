//! Kinds of B+ tree node.
use vstd::prelude::*;

verus! {

#[derive(Debug, Clone, Copy, PartialEq, Eq, Structural)]
pub enum BPTreeNodeType {
    Unitialised,
    Leaf,
    Branch,
}

/// The byte a node type is stored as: 1 for a leaf, 0 for a branch, and 2
/// for a node not yet initialised.
pub open spec fn node_type_byte(t: BPTreeNodeType) -> u8 {
    match t {
        BPTreeNodeType::Branch => 0,
        BPTreeNodeType::Leaf => 1,
        BPTreeNodeType::Unitialised => 2,
    }
}

/// The node type a stored byte designates; only 0, 1 and 2 designate one.
pub open spec fn node_type_of_byte(v: u8) -> BPTreeNodeType
    recommends
        v <= 2,
{
    if v == 0 {
        BPTreeNodeType::Branch
    } else if v == 1 {
        BPTreeNodeType::Leaf
    } else {
        BPTreeNodeType::Unitialised
    }
}

pub proof fn lemma_node_type_roundtrip(t: BPTreeNodeType)
    ensures
        node_type_byte(t) <= 2,
        node_type_of_byte(node_type_byte(t)) == t,
{
}

impl BPTreeNodeType {
    /// The default node type: not yet initialised.
    pub fn default_type() -> (r: Self)
        ensures
            r == BPTreeNodeType::Unitialised,
    {
        BPTreeNodeType::Unitialised
    }

    pub fn to_byte(&self) -> (r: u8)
        ensures
            r == node_type_byte(*self),
    {
        match self {
            BPTreeNodeType::Branch => 0,
            BPTreeNodeType::Leaf => 1,
            BPTreeNodeType::Unitialised => 2,
        }
    }

    /// The node type stored as `value`; any other byte than 0, 1 and 2 is no node type.
    pub fn from_byte(value: u8) -> (r: Self)
        requires
            value <= 2,
        ensures
            r == node_type_of_byte(value),
            node_type_byte(r) == value,
    {
        match value {
            0 => BPTreeNodeType::Branch,
            1 => BPTreeNodeType::Leaf,
            _ => BPTreeNodeType::Unitialised,
        }
    }
}

} // verus!
