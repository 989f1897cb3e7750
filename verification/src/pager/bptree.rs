//! Building blocks of B+ tree nodes.
pub mod node_type;
pub mod header;
pub mod cell_id;
pub mod cell_size;
pub mod node_offset;
