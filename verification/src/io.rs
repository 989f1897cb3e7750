//! Little-endian encoding of integers and byte-range copies inside buffers.
use vstd::prelude::*;
use vstd::bytes::*;
use vstd::slice::slice_subrange;

verus! {

/// `s` with the bytes from `off` replaced by `data`.
pub open spec fn splice(s: Seq<u8>, off: int, data: Seq<u8>) -> Seq<u8> {
    s.subrange(0, off) + data + s.subrange(off + data.len(), s.len() as int)
}

/// The `len` bytes of `s` starting at `off`.
pub open spec fn extract(s: Seq<u8>, off: int, len: int) -> Seq<u8> {
    s.subrange(off, off + len)
}

pub proof fn lemma_splice_len(s: Seq<u8>, off: int, data: Seq<u8>)
    requires
        0 <= off,
        off + data.len() <= s.len(),
    ensures
        splice(s, off, data).len() == s.len(),
        extract(splice(s, off, data), off, data.len() as int) =~= data,
        forall|i: int| 0 <= i < s.len() && !(off <= i < off + data.len())
            ==> #[trigger] splice(s, off, data)[i] == s[i],
        forall|i: int| off <= i < off + data.len() ==> #[trigger] splice(s, off, data)[i] == data[i - off],
{
}

/// Copy `data` into `buf` from position `off`.
pub fn write_bytes(buf: &mut Vec<u8>, off: usize, data: &[u8])
    requires
        off + data@.len() <= old(buf)@.len(),
    ensures
        final(buf)@ == splice(old(buf)@, off as int, data@),
{
    let blen = buf.len();
    let mut i: usize = 0;
    while i < data.len()
        invariant
            blen == buf@.len(),
            i <= data@.len(),
            off + data@.len() <= buf@.len(),
            buf@.len() == old(buf)@.len(),
            forall|k: int| 0 <= k < buf@.len() && !(off <= k < off + i) ==> buf@[k] == old(buf)@[k],
            forall|k: int| off <= k < off + i ==> buf@[k] == data@[k - off],
        decreases data@.len() - i,
    {
        buf.set(off + i, data[i]);
        i = i + 1;
    }
    assert(buf@ =~= splice(old(buf)@, off as int, data@));
}

/// Copy of the `len` bytes of `buf` starting at `off`.
pub fn read_bytes(buf: &[u8], off: usize, len: usize) -> (out: Vec<u8>)
    requires
        off + len <= buf@.len(),
    ensures
        out@ == extract(buf@, off as int, len as int),
{
    let blen = buf.len();
    let mut out: Vec<u8> = Vec::new();
    let mut i: usize = 0;
    while i < len
        invariant
            blen == buf@.len(),
            i <= len,
            off + len <= buf@.len(),
            out@ =~= buf@.subrange(off as int, off + i),
        decreases len - i,
    {
        out.push(buf[off + i]);
        i = i + 1;
    }
    out
}

/// Read a little-endian `u64` at `off`.
pub fn read_u64(buf: &[u8], off: usize) -> (v: u64)
    requires
        off + 8 <= buf@.len(),
    ensures
        v == spec_u64_from_le_bytes(extract(buf@, off as int, 8)),
{
    let _blen = buf.len();
    u64_from_le_bytes(slice_subrange(buf, off, off + 8))
}

} // verus!

verus! {

/// The little-endian `u64` stored at `off` in `s`.
pub open spec fn u64_at(s: Seq<u8>, off: int) -> u64 {
    spec_u64_from_le_bytes(extract(s, off, 8))
}

/// The little-endian `u32` stored at `off` in `s`.
pub open spec fn u32_at(s: Seq<u8>, off: int) -> u32 {
    spec_u32_from_le_bytes(extract(s, off, 4))
}

/// The little-endian `u16` stored at `off` in `s`.
pub open spec fn u16_at(s: Seq<u8>, off: int) -> u16 {
    spec_u16_from_le_bytes(extract(s, off, 2))
}

pub open spec fn le64(v: u64) -> Seq<u8> {
    spec_u64_to_le_bytes(v)
}

pub open spec fn le32(v: u32) -> Seq<u8> {
    spec_u32_to_le_bytes(v)
}

pub open spec fn le16(v: u16) -> Seq<u8> {
    spec_u16_to_le_bytes(v)
}

/// Encoding then decoding an integer gives it back, and encodings have the expected length.
pub proof fn lemma_le_roundtrip()
    ensures
        forall|v: u64| #![trigger le64(v)] le64(v).len() == 8 && spec_u64_from_le_bytes(le64(v)) == v,
        forall|v: u32| #![trigger le32(v)] le32(v).len() == 4 && spec_u32_from_le_bytes(le32(v)) == v,
        forall|v: u16| #![trigger le16(v)] le16(v).len() == 2 && spec_u16_from_le_bytes(le16(v)) == v,
{
    lemma_auto_spec_u64_to_from_le_bytes();
    lemma_auto_spec_u32_to_from_le_bytes();
    lemma_auto_spec_u16_to_from_le_bytes();
}

/// Read a little-endian `u32` at `off`.
pub fn read_u32(buf: &[u8], off: usize) -> (v: u32)
    requires
        off + 4 <= buf@.len(),
    ensures
        v == u32_at(buf@, off as int),
{
    let _blen = buf.len();
    u32_from_le_bytes(slice_subrange(buf, off, off + 4))
}

/// Read a little-endian `u16` at `off`.
pub fn read_u16(buf: &[u8], off: usize) -> (v: u16)
    requires
        off + 2 <= buf@.len(),
    ensures
        v == u16_at(buf@, off as int),
{
    let _blen = buf.len();
    u16_from_le_bytes(slice_subrange(buf, off, off + 2))
}

/// Append the little-endian encoding of `v`.
pub fn push_u64(out: &mut Vec<u8>, v: u64)
    ensures
        final(out)@ == old(out)@ + le64(v),
{
    let b = u64_to_le_bytes(v);
    out.extend_from_slice(b.as_slice());
    assert(final(out)@ =~= old(out)@ + le64(v));
}

/// Append the little-endian encoding of `v`.
pub fn push_u32(out: &mut Vec<u8>, v: u32)
    ensures
        final(out)@ == old(out)@ + le32(v),
{
    let b = u32_to_le_bytes(v);
    out.extend_from_slice(b.as_slice());
    assert(final(out)@ =~= old(out)@ + le32(v));
}

/// Append the little-endian encoding of `v`.
pub fn push_u16(out: &mut Vec<u8>, v: u16)
    ensures
        final(out)@ == old(out)@ + le16(v),
{
    let b = u16_to_le_bytes(v);
    out.extend_from_slice(b.as_slice());
    assert(final(out)@ =~= old(out)@ + le16(v));
}

/// A buffer of `n` zero bytes.
pub fn zeros(n: usize) -> (out: Vec<u8>)
    ensures
        out@ == Seq::new(n as nat, |i: int| 0u8),
{
    let mut out: Vec<u8> = Vec::new();
    let mut i: usize = 0;
    while i < n
        invariant
            i <= n,
            out@ =~= Seq::new(i as nat, |k: int| 0u8),
        decreases n - i,
    {
        out.push(0u8);
        i = i + 1;
    }
    out
}

} // verus!

verus! {

/// `v` as a `usize`, or `usize::MAX` when it does not fit.
pub open spec fn sat_usize(v: u64) -> int {
    if v <= usize::MAX { v as int } else { usize::MAX as int }
}

/// `v` as a `usize`; a value too large for it is clamped to `usize::MAX`.
pub fn usize_saturating(v: u64) -> (r: usize)
    ensures
        r == sat_usize(v),
{
    if v <= usize::MAX as u64 {
        v as usize
    } else {
        usize::MAX
    }
}

} // verus!

verus! {

/// A read that failed: the stream ended before the value did.
#[derive(Debug, Clone, Copy, PartialEq, Eq, Structural)]
pub enum ReadError {
    UnexpectedEof,
}

} // verus!
