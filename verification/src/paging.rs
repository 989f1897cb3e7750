//! Structures stored in the pages of a pager: B+ tree nodes and leaves.
pub mod bptree;
pub mod error;
pub mod page;
pub mod pager;
pub mod overflow;
