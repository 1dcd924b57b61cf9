//! Little-endian integer fields inside byte buffers.

use vstd::prelude::*;

verus! {

/// The value of four bytes read as a little-endian `u32`.
pub open spec fn u32_le(b0: u8, b1: u8, b2: u8, b3: u8) -> u32 {
    (b0 as u32) | ((b1 as u32) << 8) | ((b2 as u32) << 16) | ((b3 as u32) << 24)
}

/// The value stored at `pos..pos + 4` of `s`, read as a little-endian `u32`.
pub open spec fn u32_at(s: Seq<u8>, pos: int) -> u32 {
    u32_le(s[pos], s[pos + 1], s[pos + 2], s[pos + 3])
}

/// The four little-endian bytes of `v`.
pub open spec fn u32_bytes(v: u32) -> Seq<u8> {
    seq![v as u8, (v >> 8) as u8, (v >> 16) as u8, (v >> 24) as u8]
}

/// Reading back the four bytes of a value gives the value.
pub proof fn lemma_u32_roundtrip(v: u32)
    ensures
        u32_at(u32_bytes(v), 0) == v,
{
    let b = u32_bytes(v);
    let (b0, b1, b2, b3) = (v as u8, (v >> 8) as u8, (v >> 16) as u8, (v >> 24) as u8);
    assert(b[0] == b0 && b[1] == b1 && b[2] == b2 && b[3] == b3);
    assert(u32_le(b0, b1, b2, b3) == v) by (bit_vector)
        requires
            b0 == v as u8,
            b1 == (v >> 8) as u8,
            b2 == (v >> 16) as u8,
            b3 == (v >> 24) as u8,
    ;
}

/// Reads the little-endian `u32` at `pos`, or `None` when fewer than four bytes remain.
pub fn read_u32_le(s: &[u8], pos: usize) -> (r: Option<u32>)
    ensures
        r is Some <==> pos + 4 <= s@.len(),
        r matches Some(v) ==> v == u32_at(s@, pos as int),
{
    if pos > s.len() || s.len() - pos < 4 {
        return None;
    }
    let b0 = s[pos];
    let b1 = s[pos + 1];
    let b2 = s[pos + 2];
    let b3 = s[pos + 3];
    Some((b0 as u32) | ((b1 as u32) << 8) | ((b2 as u32) << 16) | ((b3 as u32) << 24))
}

/// Appends the four little-endian bytes of `v` to `out`.
pub fn push_u32_le(out: &mut Vec<u8>, v: u32)
    ensures
        final(out)@ == old(out)@ + u32_bytes(v),
{
    out.push(v as u8);
    out.push((v >> 8) as u8);
    out.push((v >> 16) as u8);
    out.push((v >> 24) as u8);
    assert(final(out)@ =~= old(out)@ + u32_bytes(v));
}

} // verus!

verus! {

/// Why a byte buffer could not be read.
#[derive(Debug, Clone, Copy, PartialEq, Eq, Structural)]
pub enum ParseError {
    /// The buffer ends before the structure does.
    Incomplete,
    /// A field holds a value that the format does not allow.
    InvalidValue,
}

} // verus!
