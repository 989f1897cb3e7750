//! Page nonces, drawn at random when a page header is made.
use vstd::prelude::*;
use rand::Rng;

verus! {

/// A random value stamped in a page header, to tell apart pages in conflict.
#[derive(Debug, Clone, Copy, PartialEq, Eq, Structural)]
pub struct PageNonce(pub u16);

/// Calls `rand::thread_rng().gen::<u16>()`: a value drawn from the thread-local
/// generator. Nothing is claimed of it: any `u16` may come back.
#[verifier::external_body]
fn random_u16() -> (r: u16) {
    rand::thread_rng().gen::<u16>()
}

impl PageNonce {
    /// The nonce of a page that has not been stamped.
    pub fn not_set() -> (r: Self)
        ensures
            r.0 == 0,
    {
        PageNonce(0)
    }

    /// A fresh nonce, drawn at random; any value may come out.
    pub fn new() -> (r: Self) {
        PageNonce(random_u16())
    }

    /// Number of bytes a nonce occupies once encoded.
    pub fn size_of() -> (r: u64)
        ensures
            r == 2,
    {
        2
    }
}

} // verus!
