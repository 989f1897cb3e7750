//! Pager-wide data of the first layout.
pub mod header;
