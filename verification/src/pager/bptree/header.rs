//! Header of a B+ tree node: node type, number of cells and capacity, one byte each.
use vstd::prelude::*;
use crate::pager::bptree::node_type::{BPTreeNodeType, node_type_byte, node_type_of_byte, lemma_node_type_roundtrip};

verus! {

/// Room reserved for the node header in a page.
pub const BPTREE_HEADER_SIZE: u64 = 24;

#[derive(Debug, Clone, Copy, PartialEq, Eq, Structural)]
pub struct BPTreeNodeHeader {
    /// Type of node
    pub node_type: BPTreeNodeType,
    /// Number of cells
    pub len: u8,
    /// Capacity of the cells
    pub capacity: u8,
}

pub open spec fn node_header_bytes(h: BPTreeNodeHeader) -> Seq<u8> {
    seq![node_type_byte(h.node_type), h.len, h.capacity]
}

/// The node header stored at the start of `s`.
pub open spec fn node_header_of_bytes(s: Seq<u8>) -> BPTreeNodeHeader {
    BPTreeNodeHeader { node_type: node_type_of_byte(s[0]), len: s[1], capacity: s[2] }
}

pub proof fn lemma_node_header_roundtrip(h: BPTreeNodeHeader)
    ensures
        node_header_bytes(h).len() == 3,
        node_header_of_bytes(node_header_bytes(h)) == h,
{
    lemma_node_type_roundtrip(h.node_type);
}

impl BPTreeNodeHeader {
    /// Header of a node with no cell yet.
    pub fn new(node_type: BPTreeNodeType, capacity: u8) -> (r: Self)
        ensures
            r == (BPTreeNodeHeader { node_type, len: 0, capacity }),
    {
        BPTreeNodeHeader { node_type, len: 0, capacity }
    }

    /// Room the header takes in a page.
    pub fn size_of() -> (r: u64)
        ensures
            r == BPTREE_HEADER_SIZE,
    {
        24
    }

    pub fn to_bytes(&self) -> (out: Vec<u8>)
        ensures
            out@ == node_header_bytes(*self),
    {
        let mut out: Vec<u8> = Vec::new();
        out.push(self.node_type.to_byte());
        out.push(self.len);
        out.push(self.capacity);
        assert(out@ =~= node_header_bytes(*self));
        out
    }

    /// The header stored at the start of `bytes`, whose first byte must be a node type.
    pub fn from_bytes(bytes: &[u8]) -> (r: Self)
        requires
            bytes@.len() >= 3,
            bytes@[0] <= 2,
        ensures
            r == node_header_of_bytes(bytes@),
    {
        BPTreeNodeHeader { node_type: BPTreeNodeType::from_byte(bytes[0]), len: bytes[1], capacity: bytes[2] }
    }
}

} // verus!
