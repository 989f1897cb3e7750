//! Keyed storage of byte strings, and the local stores built on files.
use vstd::prelude::*;
use vstd::string::{StringSliceAdditionalSpecFns, StrSliceExecFns};

pub mod impls;

verus! {

/// Why a store refused a request.
#[derive(Debug, Clone, Copy, PartialEq, Eq, Structural)]
pub enum StorageError {
    /// Nothing is stored under the key.
    NotFound,
    /// The medium behind the store failed.
    Io,
}

/// A key: the bytes of a name.
#[derive(Debug, Clone)]
pub struct Key(pub Vec<u8>);

impl Key {
    /// The key made of the bytes of `value`.
    pub fn from_str(value: &str) -> (r: Self)
        ensures
            r.0@ == value.spec_bytes(),
    {
        Key(value.as_bytes_vec())
    }

    /// The bytes of the key.
    pub fn as_bytes(&self) -> (r: &[u8])
        ensures
            r@ == self.0@,
    {
        self.0.as_slice()
    }
}

/// A store of byte strings under keys.
pub trait Storage {
    fn store(&mut self, key: &Key, data: &[u8]) -> Result<(), StorageError>;

    fn fetch(&mut self, key: &Key, input: &mut Vec<u8>) -> Result<(), StorageError>;
}

} // verus!
