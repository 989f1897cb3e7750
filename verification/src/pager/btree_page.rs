//! B+ tree pages of the stream layout: a node header after the page header,
//! then branch or leaf cells.
pub mod node_type;
pub mod branch_cell;
pub mod leaf_cell;
pub mod page_header;
