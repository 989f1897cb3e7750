//! Pages stored in fixed-size slots, their headers, and the structures built on them.
pub mod id;
pub mod offset;
pub mod page;
pub mod error;
pub mod traits;
pub mod versions;
pub mod memory;
pub mod bptree;
pub mod utils;
pub mod overflow;
pub mod types;
pub mod allocator;
pub mod btree;
pub mod page_id;
pub mod page_nonce;
pub mod page_type;
pub mod page_header;
pub mod btree_page;
pub mod header;
pub mod buffer;
pub mod storage;
pub mod stream;
