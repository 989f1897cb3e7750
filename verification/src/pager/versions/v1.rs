//! First layout: a 19-byte page header, the pager header at the start of page 0,
//! and free pages chained through the start of their body.
use vstd::prelude::*;

pub mod page;
pub mod pager;
pub mod allocator;
pub mod bptree;

verus! {

/// Marker of the first layout version.
pub struct V1;

} // verus!
