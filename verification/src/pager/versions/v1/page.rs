//! Page layout of the first version.
use vstd::prelude::*;

pub mod header;

verus! {

/// Where the body of a page starts.
pub const PAGE_BODY_OFFSET: u64 = 19;

/// Smallest page able to hold a page header: the larger of the header size
/// and itself, as the first layout defines it.
pub fn min_page_size() -> (r: u64)
    ensures
        r == 19,
{
    const_max(header::PAGE_HEADER_SIZE, header::PAGE_HEADER_SIZE)
}

/// Calls `const_utils::u64::max`, which returns `a` when `a > b` and `b`
/// otherwise (its source: `cond(a > b, a, b)`).
#[verifier::external_body]
fn const_max(a: u64, b: u64) -> (r: u64)
    ensures
        r == (if a > b { a } else { b }),
{
    const_utils::u64::max(a, b)
}

} // verus!
