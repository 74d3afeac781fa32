//! Little-endian integer encoding and byte-buffer helpers for the wire protocols.
use vstd::prelude::*;

verus! {

/// The four little-endian bytes of a 32-bit value.
pub open spec fn le_bytes_u32(v: u32) -> Seq<u8> {
    seq![(v % 256) as u8, ((v / 256) % 256) as u8, ((v / 65536) % 256) as u8, (v / 16777216) as u8]
}

/// The 32-bit value that four little-endian bytes denote.
pub open spec fn le_u32(b: Seq<u8>) -> u32 {
    (b[0] as int + b[1] as int * 256 + b[2] as int * 65536 + b[3] as int * 16777216) as u32
}

/// The four little-endian bytes of a signed 32-bit value (two's complement).
pub open spec fn le_bytes_i32(v: i32) -> Seq<u8> {
    le_bytes_u32(v as u32)
}

/// The signed 32-bit value that four little-endian bytes denote.
pub open spec fn le_i32(b: Seq<u8>) -> i32 {
    le_u32(b) as i32
}

pub proof fn lemma_le_u32_roundtrip(v: u32)
    ensures
        le_u32(le_bytes_u32(v)) == v,
        le_bytes_u32(v).len() == 4,
{
    let b = le_bytes_u32(v);
    assert(b[0] as int + b[1] as int * 256 + b[2] as int * 65536 + b[3] as int * 16777216 == v as int)
        by (nonlinear_arith)
        requires
            b[0] == (v % 256) as u8,
            b[1] == ((v / 256) % 256) as u8,
            b[2] == ((v / 65536) % 256) as u8,
            b[3] == (v / 16777216) as u8,
    {
    }
}

pub proof fn lemma_le_i32_roundtrip(v: i32)
    ensures
        le_i32(le_bytes_i32(v)) == v,
        le_bytes_i32(v).len() == 4,
{
    lemma_le_u32_roundtrip(v as u32);
    assert((v as u32) as i32 == v) by (bit_vector);
}

/// Appends the little-endian bytes of `v`.
pub fn push_u32_le(buf: &mut Vec<u8>, v: u32)
    ensures
        final(buf)@ == old(buf)@ + le_bytes_u32(v),
{
    buf.push((v % 256) as u8);
    buf.push(((v / 256) % 256) as u8);
    buf.push(((v / 65536) % 256) as u8);
    buf.push((v / 16777216) as u8);
    assert(final(buf)@ =~= old(buf)@ + le_bytes_u32(v));
}

/// Appends the little-endian bytes of `v` (two's complement).
pub fn push_i32_le(buf: &mut Vec<u8>, v: i32)
    ensures
        final(buf)@ == old(buf)@ + le_bytes_i32(v),
{
    push_u32_le(buf, v as u32);
}

/// Reads a little-endian `u32` at `off`.
pub fn read_u32_le(buf: &Vec<u8>, off: usize) -> (r: u32)
    requires
        off + 4 <= buf.len(),
    ensures
        r == le_u32(buf@.subrange(off as int, off + 4)),
{
    let b0 = buf[off] as u32;
    let b1 = buf[off + 1] as u32;
    let b2 = buf[off + 2] as u32;
    let b3 = buf[off + 3] as u32;
    let ghost s = buf@.subrange(off as int, off + 4);
    assert(s[0] == b0 && s[1] == b1 && s[2] == b2 && s[3] == b3);
    b0 + b1 * 256 + b2 * 65536 + b3 * 16777216
}

/// Reads a little-endian `i32` at `off`.
pub fn read_i32_le(buf: &Vec<u8>, off: usize) -> (r: i32)
    requires
        off + 4 <= buf.len(),
    ensures
        r == le_i32(buf@.subrange(off as int, off + 4)),
{
    read_u32_le(buf, off) as i32
}

/// Removes the first `n` bytes of the buffer.
pub fn drop_front(buf: &mut Vec<u8>, n: usize)
    requires
        n <= old(buf)@.len(),
    ensures
        final(buf)@ == old(buf)@.subrange(n as int, old(buf)@.len() as int),
{
    let mut rest: Vec<u8> = Vec::new();
    let len = buf.len();
    let mut i = n;
    while i < len
        invariant
            n <= i <= len,
            len == buf@.len(),
            rest@ == buf@.subrange(n as int, i as int),
        decreases len - i,
    {
        rest.push(buf[i]);
        i = i + 1;
        assert(rest@ =~= buf@.subrange(n as int, i as int));
    }
    *buf = rest;
}

/// Copies bytes `lo..hi` of a buffer.
pub fn copy_range(buf: &Vec<u8>, lo: usize, hi: usize) -> (r: Vec<u8>)
    requires
        lo <= hi <= buf@.len(),
    ensures
        r@ == buf@.subrange(lo as int, hi as int),
{
    let mut rest: Vec<u8> = Vec::new();
    let mut i = lo;
    while i < hi
        invariant
            lo <= i <= hi,
            hi <= buf@.len(),
            rest@ == buf@.subrange(lo as int, i as int),
        decreases hi - i,
    {
        rest.push(buf[i]);
        i = i + 1;
        assert(rest@ =~= buf@.subrange(lo as int, i as int));
    }
    rest
}

} // verus!
