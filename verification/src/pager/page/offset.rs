//! Offsets inside a page, as stored in headers.
use vstd::prelude::*;

verus! {

/// An offset inside a page, stored on four bytes.
#[derive(Debug, Clone, Copy, PartialEq, Eq, Structural)]
pub struct PageOffset(pub u32);

impl PageOffset {
    /// Number of bytes an offset occupies once encoded.
    pub fn size_of() -> (r: u64)
        ensures
            r == 4,
    {
        4
    }

    /// Sum of two offsets, wrapping around at 2^32.
    pub fn add(self, rhs: PageOffset) -> (r: PageOffset)
        ensures
            r.0 == (if self.0 + rhs.0 <= u32::MAX { self.0 + rhs.0 } else { self.0 + rhs.0 - 0x1_0000_0000 }),
    {
        PageOffset(self.0.wrapping_add(rhs.0))
    }

    /// The offset as an absolute position inside a page.
    pub fn to_u64(self) -> (r: u64)
        ensures
            r == self.0,
    {
        self.0 as u64
    }
}

} // verus!
