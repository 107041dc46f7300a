//! Little-endian views of a byte source, and verified readers for them.
//!
//! Every multi-byte integer of the wire format is little-endian. The spec
//! functions here are the mathematical model of that encoding; the exec
//! readers are proved to return exactly the modelled value.

use vstd::prelude::*;

verus! {

/// The 16-bit little-endian value at byte offset `i` of `b`.
pub open spec fn u16_le(b: Seq<u8>, i: int) -> u16 {
    (b[i] as u16) | ((b[i + 1] as u16) << 8)
}

/// The 32-bit little-endian value at byte offset `i` of `b`.
pub open spec fn u32_le(b: Seq<u8>, i: int) -> u32 {
    (b[i] as u32) | ((b[i + 1] as u32) << 8) | ((b[i + 2] as u32) << 16) | ((b[i + 3] as u32)
        << 24)
}

/// The 64-bit little-endian value at byte offset `i` of `b`.
pub open spec fn u64_le(b: Seq<u8>, i: int) -> u64 {
    (b[i] as u64) | ((b[i + 1] as u64) << 8) | ((b[i + 2] as u64) << 16) | ((b[i + 3] as u64)
        << 24) | ((b[i + 4] as u64) << 32) | ((b[i + 5] as u64) << 40) | ((b[i + 6] as u64) << 48)
        | ((b[i + 7] as u64) << 56)
}

/// The eight little-endian bytes of `w`.
pub open spec fn u64_le_bytes(w: u64) -> Seq<u8> {
    seq![
        (w & 0xFF) as u8,
        ((w >> 8) & 0xFF) as u8,
        ((w >> 16) & 0xFF) as u8,
        ((w >> 24) & 0xFF) as u8,
        ((w >> 32) & 0xFF) as u8,
        ((w >> 40) & 0xFF) as u8,
        ((w >> 48) & 0xFF) as u8,
        ((w >> 56) & 0xFF) as u8,
    ]
}

/// The sequence of `n` 16-bit little-endian values starting at offset `i`.
pub open spec fn u16_seq_le(b: Seq<u8>, i: int, n: int) -> Seq<u16> {
    Seq::new(n as nat, |k: int| u16_le(b, i + 2 * k))
}

/// The sequence of `n` 32-bit little-endian values starting at offset `i`.
pub open spec fn u32_seq_le(b: Seq<u8>, i: int, n: int) -> Seq<u32> {
    Seq::new(n as nat, |k: int| u32_le(b, i + 4 * k))
}

/// Reads the 16-bit little-endian value at `pos`.
pub fn read_u16_le(src: &[u8], pos: usize) -> (r: u16)
    requires
        pos + 2 <= src@.len(),
    ensures
        r == u16_le(src@, pos as int),
{
    (src[pos] as u16) | ((src[pos + 1] as u16) << 8)
}

/// Reads the 32-bit little-endian value at `pos`.
pub fn read_u32_le(src: &[u8], pos: usize) -> (r: u32)
    requires
        pos + 4 <= src@.len(),
    ensures
        r == u32_le(src@, pos as int),
{
    (src[pos] as u32) | ((src[pos + 1] as u32) << 8) | ((src[pos + 2] as u32) << 16) | ((src[pos
        + 3] as u32) << 24)
}

/// Reads the 64-bit little-endian value at `pos`.
pub fn read_u64_le(src: &[u8], pos: usize) -> (r: u64)
    requires
        pos + 8 <= src@.len(),
    ensures
        r == u64_le(src@, pos as int),
{
    (src[pos] as u64) | ((src[pos + 1] as u64) << 8) | ((src[pos + 2] as u64) << 16) | ((src[pos
        + 3] as u64) << 24) | ((src[pos + 4] as u64) << 32) | ((src[pos + 5] as u64) << 40) | ((
    src[pos + 6] as u64) << 48) | ((src[pos + 7] as u64) << 56)
}

/// Copies the `n` bytes starting at `pos` into an owned vector.
pub(crate) fn read_u8_vec(src: &[u8], pos: usize, n: usize) -> (r: Vec<u8>)
    requires
        pos + n <= src@.len(),
    ensures
        r@ == src@.subrange(pos as int, pos + n),
{
    let srclen: usize = src.len();
    let mut out: Vec<u8> = Vec::new();
    let mut k: usize = 0;
    while k < n
        invariant
            k <= n,
            pos + n <= srclen,
            srclen == src@.len(),
            out@ =~= src@.subrange(pos as int, pos + k),
        decreases n - k,
    {
        out.push(src[pos + k]);
        k = k + 1;
        assert(out@ =~= src@.subrange(pos as int, pos + k));
    }
    out
}

/// Reads the `n` 16-bit little-endian values starting at `pos`.
pub(crate) fn read_u16_vec_le(src: &[u8], pos: usize, n: usize) -> (r: Vec<u16>)
    requires
        pos + 2 * n <= src@.len(),
    ensures
        r@ == u16_seq_le(src@, pos as int, n as int),
{
    let srclen: usize = src.len();
    let mut out: Vec<u16> = Vec::new();
    let mut k: usize = 0;
    while k < n
        invariant
            k <= n,
            pos + 2 * n <= srclen,
            srclen == src@.len(),
            out@ =~= u16_seq_le(src@, pos as int, k as int),
        decreases n - k,
    {
        out.push(read_u16_le(src, pos + 2 * k));
        k = k + 1;
        assert(out@ =~= u16_seq_le(src@, pos as int, k as int));
    }
    out
}

/// Reads the `n` 32-bit little-endian values starting at `pos`.
pub(crate) fn read_u32_vec_le(src: &[u8], pos: usize, n: usize) -> (r: Vec<u32>)
    requires
        pos + 4 * n <= src@.len(),
    ensures
        r@ == u32_seq_le(src@, pos as int, n as int),
{
    let srclen: usize = src.len();
    let mut out: Vec<u32> = Vec::new();
    let mut k: usize = 0;
    while k < n
        invariant
            k <= n,
            pos + 4 * n <= srclen,
            srclen == src@.len(),
            out@ =~= u32_seq_le(src@, pos as int, k as int),
        decreases n - k,
    {
        out.push(read_u32_le(src, pos + 4 * k));
        k = k + 1;
        assert(out@ =~= u32_seq_le(src@, pos as int, k as int));
    }
    out
}

} // verus!
