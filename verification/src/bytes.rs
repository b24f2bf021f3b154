//! Little-endian integer decoding from raw disk bytes.
//!
//! Every on-disk structure in this crate is decoded field by field through
//! these helpers, so that each field's byte offset and width is explicit and
//! the decoded value is pinned to the byte sequence it came from.

use vstd::prelude::*;

verus! {

/// The little-endian `u16` held at offset `i` of `s`.
pub open spec fn le16_at(s: Seq<u8>, i: int) -> u16 {
    (s[i] as u16) | ((s[i + 1] as u16) << 8)
}

/// The little-endian `u32` held at offset `i` of `s`.
pub open spec fn le32_at(s: Seq<u8>, i: int) -> u32 {
    (s[i] as u32) | ((s[i + 1] as u32) << 8) | ((s[i + 2] as u32) << 16) | ((s[i + 3] as u32)
        << 24)
}

/// The little-endian `u64` held at offset `i` of `s`.
pub open spec fn le64_at(s: Seq<u8>, i: int) -> u64 {
    (le32_at(s, i) as u64) | ((le32_at(s, i + 4) as u64) << 32)
}

/// The little-endian `u128` held at offset `i` of `s`.
pub open spec fn le128_at(s: Seq<u8>, i: int) -> u128 {
    (le64_at(s, i) as u128) | ((le64_at(s, i + 8) as u128) << 64)
}

/// Reads the little-endian `u16` at offset `off` of `buf`.
pub fn le16(buf: &Vec<u8>, off: usize) -> (r: u16)
    requires
        off + 2 <= buf.len(),
    ensures
        r == le16_at(buf@, off as int),
{
    (buf[off] as u16) | ((buf[off + 1] as u16) << 8)
}

/// Reads the little-endian `u32` at offset `off` of `buf`.
pub fn le32(buf: &Vec<u8>, off: usize) -> (r: u32)
    requires
        off + 4 <= buf.len(),
    ensures
        r == le32_at(buf@, off as int),
{
    (buf[off] as u32) | ((buf[off + 1] as u32) << 8) | ((buf[off + 2] as u32) << 16) | ((buf[off
        + 3] as u32) << 24)
}

/// Reads the little-endian `u64` at offset `off` of `buf`.
pub fn le64(buf: &Vec<u8>, off: usize) -> (r: u64)
    requires
        off + 8 <= buf.len(),
    ensures
        r == le64_at(buf@, off as int),
{
    (le32(buf, off) as u64) | ((le32(buf, off + 4) as u64) << 32)
}

/// Reads the little-endian `u128` at offset `off` of `buf`.
pub fn le128(buf: &Vec<u8>, off: usize) -> (r: u128)
    requires
        off + 16 <= buf.len(),
    ensures
        r == le128_at(buf@, off as int),
{
    (le64(buf, off) as u128) | ((le64(buf, off + 8) as u128) << 64)
}

/// Copies `buf[off .. off + n]` into a fresh vector.
pub fn copy_range(buf: &Vec<u8>, off: usize, n: usize) -> (r: Vec<u8>)
    requires
        off + n <= buf.len(),
    ensures
        r@ == buf@.subrange(off as int, off + n),
{
    let mut out: Vec<u8> = Vec::new();
    let mut i: usize = 0;
    while i < n
        invariant
            i <= n,
            off + n <= buf.len(),
            out@ == buf@.subrange(off as int, off + i),
        decreases n - i,
    {
        out.push(buf[off + i]);
        proof {
            assert(out@ =~= buf@.subrange(off as int, off + i + 1));
        }
        i = i + 1;
    }
    out
}

} // verus!
