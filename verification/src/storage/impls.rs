//! Blocks kept as files of a directory, each named by the hexadecimal form
//! of its hash.
use vstd::prelude::*;

verus! {

/// The lowercase hexadecimal digit of `n`, for `n` below 16.
pub open spec fn hex_digit(n: u8) -> char {
    if n < 10 {
        (48 + n) as char
    } else {
        (87 + n) as char
    }
}

/// The lowercase hexadecimal form of `s`: two digits per byte, the high half first.
pub open spec fn hex_lower(s: Seq<u8>) -> Seq<char>
    decreases s.len(),
{
    if s.len() == 0 {
        Seq::empty()
    } else {
        seq![hex_digit(s[0] / 16), hex_digit(s[0] % 16)] + hex_lower(s.drop_first())
    }
}

/// `hex::encode`: the lowercase hexadecimal form of `data`, two digits per
/// byte, the high half of each byte first.
#[verifier::external_body]
fn hex_encode(data: &[u8]) -> (r: String)
    ensures
        r@ == hex_lower(data@),
{
    hex::encode(data)
}

/// A directory of blocks of `BLOCK_LENGTH` bytes.
pub struct LocalBlockStorage<const BLOCK_LENGTH: usize> {
    pub directory: String,
}

impl<const BLOCK_LENGTH: usize> LocalBlockStorage<BLOCK_LENGTH> {
    /// The store kept in the directory `path`.
    pub fn open(path: String) -> (r: Self)
        ensures
            r.directory@ == path@,
    {
        LocalBlockStorage { directory: path }
    }

    /// Name of the file that holds the block of hash `hash`.
    pub fn block_file_name(hash: &[u8]) -> (r: String)
        ensures
            r@ == hex_lower(hash@),
    {
        hex_encode(hash)
    }
}

/// Merkle nodes kept as blocks of a block store.
pub struct LocalMerkleNodeStorage<BlockStore> {
    pub store: BlockStore,
}

impl<BlockStore> LocalMerkleNodeStorage<BlockStore> {
    pub fn new(store: BlockStore) -> (r: Self)
        ensures
            r.store == store,
    {
        LocalMerkleNodeStorage { store }
    }
}

} // verus!
