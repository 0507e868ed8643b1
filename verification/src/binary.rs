//! Fixed-width integers stored in byte sequences, in either byte order.
use vstd::prelude::*;

verus! {

/// Little-endian value of the two bytes of `b` starting at `off`.
pub open spec fn le_u16(b: Seq<u8>, off: int) -> int {
    b[off] + 256 * b[off + 1]
}

/// Big-endian value of the two bytes of `b` starting at `off`.
pub open spec fn be_u16(b: Seq<u8>, off: int) -> int {
    256 * b[off] + b[off + 1]
}

/// Little-endian value of the four bytes of `b` starting at `off`.
pub open spec fn le_u32(b: Seq<u8>, off: int) -> int {
    le_u16(b, off) + 65536 * le_u16(b, off + 2)
}

/// Big-endian value of the four bytes of `b` starting at `off`.
pub open spec fn be_u32(b: Seq<u8>, off: int) -> int {
    65536 * be_u16(b, off) + be_u16(b, off + 2)
}

/// Little-endian value of the eight bytes of `b` starting at `off`.
pub open spec fn le_u64(b: Seq<u8>, off: int) -> int {
    le_u32(b, off) + 0x1_0000_0000 * le_u32(b, off + 4)
}

/// Big-endian value of the eight bytes of `b` starting at `off`.
pub open spec fn be_u64(b: Seq<u8>, off: int) -> int {
    0x1_0000_0000 * be_u32(b, off) + be_u32(b, off + 4)
}

/// The two-byte value at `off` in the given byte order.
pub open spec fn spec_u16(b: Seq<u8>, off: int, little: bool) -> int {
    if little { le_u16(b, off) } else { be_u16(b, off) }
}

/// The four-byte value at `off` in the given byte order.
pub open spec fn spec_u32(b: Seq<u8>, off: int, little: bool) -> int {
    if little { le_u32(b, off) } else { be_u32(b, off) }
}

/// The eight-byte value at `off` in the given byte order.
pub open spec fn spec_u64(b: Seq<u8>, off: int, little: bool) -> int {
    if little { le_u64(b, off) } else { be_u64(b, off) }
}

/// Reads a `u16` at `off` in the given byte order.
pub fn read_u16_at(data: &[u8], off: usize, little: bool) -> (r: u16)
    requires
        off + 2 <= data.len(),
    ensures
        r == spec_u16(data@, off as int, little),
{
    let b0 = data[off] as u16;
    let b1 = data[off + 1] as u16;
    if little {
        b0 + b1 * 256
    } else {
        b0 * 256 + b1
    }
}

/// Reads a `u32` at `off` in the given byte order.
pub fn read_u32_at(data: &[u8], off: usize, little: bool) -> (r: u32)
    requires
        off + 4 <= data.len(),
    ensures
        r == spec_u32(data@, off as int, little),
{
    let lo = read_u16_at(data, off, little) as u32;
    let hi = read_u16_at(data, off + 2, little) as u32;
    if little {
        lo + hi * 65536
    } else {
        lo * 65536 + hi
    }
}

/// Reads a `u64` at `off` in the given byte order.
pub fn read_u64_at(data: &[u8], off: usize, little: bool) -> (r: u64)
    requires
        off + 8 <= data.len(),
    ensures
        r == spec_u64(data@, off as int, little),
{
    let lo = read_u32_at(data, off, little) as u64;
    let hi = read_u32_at(data, off + 4, little) as u64;
    if little {
        lo + hi * 0x1_0000_0000
    } else {
        lo * 0x1_0000_0000 + hi
    }
}

/// The little-endian bytes of a `u32`.
pub open spec fn le_bytes_u32(v: int) -> Seq<u8> {
    seq![(v % 256) as u8, ((v / 256) % 256) as u8, ((v / 65536) % 256) as u8, ((v / 16777216) % 256) as u8]
}

/// The little-endian bytes of a `u64`.
pub open spec fn le_bytes_u64(v: int) -> Seq<u8> {
    le_bytes_u32(v % 0x1_0000_0000) + le_bytes_u32(v / 0x1_0000_0000)
}

/// Appends the little-endian bytes of `v` to `out`.
pub fn push_u32_le(out: &mut Vec<u8>, v: u32)
    ensures
        final(out)@ == old(out)@ + le_bytes_u32(v as int),
{
    out.push((v % 256) as u8);
    out.push(((v / 256) % 256) as u8);
    out.push(((v / 65536) % 256) as u8);
    out.push(((v / 16777216) % 256) as u8);
}

/// Appends the little-endian bytes of `v` to `out`.
pub fn push_u64_le(out: &mut Vec<u8>, v: u64)
    ensures
        final(out)@ == old(out)@ + le_bytes_u64(v as int),
{
    push_u32_le(out, (v % 0x1_0000_0000) as u32);
    push_u32_le(out, (v / 0x1_0000_0000) as u32);
}

/// Reading back the little-endian bytes of a `u32` gives the value.
pub proof fn lemma_le_u32_roundtrip(pre: Seq<u8>, v: int, post: Seq<u8>)
    requires
        0 <= v < 0x1_0000_0000,
    ensures
        le_u32(pre + le_bytes_u32(v) + post, pre.len() as int) == v,
{
    let s = pre + le_bytes_u32(v) + post;
    let o = pre.len() as int;
    assert(s[o] == (v % 256) as u8);
    assert(s[o + 1] == ((v / 256) % 256) as u8);
    assert(s[o + 2] == ((v / 65536) % 256) as u8);
    assert(s[o + 3] == ((v / 16777216) % 256) as u8);
    assert(v == v % 256 + 256 * ((v / 256) % 256) + 65536 * ((v / 65536) % 256) + 16777216 * ((v / 16777216) % 256)) by (nonlinear_arith)
        requires 0 <= v < 0x1_0000_0000;
}

/// Reading back the little-endian bytes of a `u64` gives the value.
pub proof fn lemma_le_u64_roundtrip(pre: Seq<u8>, v: int, post: Seq<u8>)
    requires
        0 <= v < 0x1_0000_0000_0000_0000,
    ensures
        le_u64(pre + le_bytes_u64(v) + post, pre.len() as int) == v,
{
    let lo = v % 0x1_0000_0000;
    let hi = v / 0x1_0000_0000;
    assert(0 <= hi < 0x1_0000_0000) by (nonlinear_arith)
        requires 0 <= v < 0x1_0000_0000_0000_0000, hi == v / 0x1_0000_0000;
    let s = pre + le_bytes_u64(v) + post;
    assert(s == pre + le_bytes_u32(lo) + (le_bytes_u32(hi) + post));
    assert(s == (pre + le_bytes_u32(lo)) + le_bytes_u32(hi) + post);
    lemma_le_u32_roundtrip(pre, lo, le_bytes_u32(hi) + post);
    lemma_le_u32_roundtrip(pre + le_bytes_u32(lo), hi, post);
}

} // verus!
