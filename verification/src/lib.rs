//! A paged storage engine: fixed-size pages addressed by identifiers, a
//! free-page allocator, variable-length values spilling into overflow pages,
//! and B+ tree nodes whose cells live inside pages.
pub mod io;
pub mod pager;
pub mod paging;
pub mod storage;

