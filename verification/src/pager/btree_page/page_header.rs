//! Node headers of the stream layout: kind, number of cells and capacity,
//! one byte each, right after the page header.
use vstd::prelude::*;
use crate::io::ReadError;
use crate::pager::page_header::PageHeader;
use crate::pager::btree_page::node_type::{BPTreeNodeType, node_kind_byte, node_kind_of_byte};

verus! {

#[derive(Debug, Clone, Copy, PartialEq, Eq, Structural)]
pub struct BPTreeHeader {
    /// Type of node: 1 = Leaf, 0 = Branch
    pub node_type: BPTreeNodeType,
    /// Number of cells
    pub len: u8,
    /// Capacity of the cells
    pub capacity: u8,
}

/// The bytes a node header is stored as.
pub open spec fn node_header_stream_bytes(h: BPTreeHeader) -> Seq<u8> {
    seq![node_kind_byte(h.node_type), h.len, h.capacity]
}

impl BPTreeHeader {
    /// Move the stream position `*pos` to where the node header starts, and return it.
    pub fn seek(pos: &mut u64) -> (r: u64)
        ensures
            r == 11,
            *final(pos) == r,
    {
        let p = PageHeader::raw_size_of();
        *pos = p;
        p
    }

    /// Append the node header to `buffer`, and return how many bytes were written.
    pub fn write_to_buffer(&self, buffer: &mut Vec<u8>) -> (r: usize)
        ensures
            final(buffer)@ == old(buffer)@ + node_header_stream_bytes(*self),
            r == 3,
    {
        buffer.push(self.node_type.to_byte());
        buffer.push(self.len);
        buffer.push(self.capacity);
        assert(buffer@ =~= old(buffer)@ + node_header_stream_bytes(*self));
        3
    }

    /// Read a node header at `*pos` and move past it.
    pub fn read_from_buffer(buffer: &[u8], pos: &mut usize) -> (r: Result<Self, ReadError>)
        requires
            *old(pos) < buffer@.len() ==> buffer@[*old(pos) as int] <= 1,
        ensures
            *old(pos) + 3 <= buffer@.len() ==> r == Ok::<Self, ReadError>(BPTreeHeader {
                node_type: node_kind_of_byte(buffer@[*old(pos) as int]),
                len: buffer@[*old(pos) + 1],
                capacity: buffer@[*old(pos) + 2],
            }) && *final(pos) == *old(pos) + 3,
            *old(pos) + 3 > buffer@.len() ==> r == Err::<Self, ReadError>(ReadError::UnexpectedEof)
                && *final(pos) == *old(pos),
    {
        if buffer.len() < 3 || *pos > buffer.len() - 3 {
            return Err(ReadError::UnexpectedEof);
        }
        let p = *pos;
        let node_type = BPTreeNodeType::from_byte(buffer[p]);
        let len = buffer[p + 1];
        let capacity = buffer[p + 2];
        *pos = p + 3;
        Ok(BPTreeHeader { node_type, len, capacity })
    }
}

/// A node header written then read back at the same place is the same header.
pub proof fn lemma_node_header_stream_roundtrip(h: BPTreeHeader, before: Seq<u8>)
    ensures
        ({
            let s = before + node_header_stream_bytes(h);
            let p = before.len() as int;
            &&& s.len() == p + 3
            &&& s[p] <= 1
            &&& (BPTreeHeader { node_type: node_kind_of_byte(s[p]), len: s[p + 1], capacity: s[p + 2] }) == h
        }),
{
}

} // verus!
