//! Cells of branch nodes.
use vstd::prelude::*;

verus! {

/// A tree branch cell.
#[derive(Debug, Clone, Copy, PartialEq, Eq, Structural)]
pub struct TreeBranchCell {
    /// Pointer to the left child
    pub left_child: u64,
    /// The key
    pub index: u64,
}

} // verus!
