//! Bounds-checked little-endian field reads from a byte buffer.
use vstd::prelude::*;

verus! {

/// The little-endian value of the two bytes at `o`.
pub open spec fn le16(s: Seq<u8>, o: int) -> int {
    s[o] as int + 256 * (s[o + 1] as int)
}

/// The little-endian value of the four bytes at `o`.
pub open spec fn le32(s: Seq<u8>, o: int) -> int {
    le16(s, o) + 65536 * le16(s, o + 2)
}

/// The little-endian value of the eight bytes at `o`.
pub open spec fn le64(s: Seq<u8>, o: int) -> int {
    le32(s, o) + 4294967296 * le32(s, o + 4)
}

/// Whether `width` bytes starting at `offset` lie inside a buffer of length `len`.
pub open spec fn fits(len: int, offset: int, width: int) -> bool {
    0 <= offset && offset + width <= len
}

proof fn lemma_le16_bound(s: Seq<u8>, o: int)
    requires
        fits(s.len() as int, o, 2),
    ensures
        0 <= le16(s, o) < 65536,
{
}

proof fn lemma_le32_bound(s: Seq<u8>, o: int)
    requires
        fits(s.len() as int, o, 4),
    ensures
        0 <= le32(s, o) < 4294967296,
{
    lemma_le16_bound(s, o);
    lemma_le16_bound(s, o + 2);
    let a = le16(s, o);
    let b = le16(s, o + 2);
    assert(a + 65536 * b < 4294967296) by (nonlinear_arith)
        requires
            0 <= a < 65536,
            0 <= b < 65536,
    ;
    assert(0 <= 65536 * b) by (nonlinear_arith)
        requires
            0 <= b,
    ;
}

proof fn lemma_le64_bound(s: Seq<u8>, o: int)
    requires
        fits(s.len() as int, o, 8),
    ensures
        0 <= le64(s, o) < 18446744073709551616,
{
    lemma_le32_bound(s, o);
    lemma_le32_bound(s, o + 4);
    let a = le32(s, o);
    let b = le32(s, o + 4);
    assert(a + 4294967296 * b < 18446744073709551616) by (nonlinear_arith)
        requires
            0 <= a < 4294967296,
            0 <= b < 4294967296,
    ;
    assert(0 <= 4294967296 * b) by (nonlinear_arith)
        requires
            0 <= b,
    ;
}

/// Reads the `u16` at `offset`; `None` when the field runs past the end.
pub fn read_u16_le(data: &[u8], offset: usize) -> (r: Option<u16>)
    ensures
        r is Some <==> fits(data@.len() as int, offset as int, 2),
        r matches Some(v) ==> v as int == le16(data@, offset as int),
{
    if offset > data.len() || data.len() - offset < 2 {
        None
    } else {
        Some(data[offset] as u16 + 256 * (data[offset + 1] as u16))
    }
}

/// Reads the `u32` at `offset`; `None` when the field runs past the end.
pub fn read_u32_le(data: &[u8], offset: usize) -> (r: Option<u32>)
    ensures
        r is Some <==> fits(data@.len() as int, offset as int, 4),
        r matches Some(v) ==> v as int == le32(data@, offset as int),
{
    if offset > data.len() || data.len() - offset < 4 {
        None
    } else {
        let lo = read_u16_le(data, offset).unwrap() as u32;
        let hi = read_u16_le(data, offset + 2).unwrap() as u32;
        proof {
            lemma_le32_bound(data@, offset as int);
        }
        Some(lo + 65536 * hi)
    }
}

/// Reads the `u64` at `offset`; `None` when the field runs past the end.
pub fn read_u64_le(data: &[u8], offset: usize) -> (r: Option<u64>)
    ensures
        r is Some <==> fits(data@.len() as int, offset as int, 8),
        r matches Some(v) ==> v as int == le64(data@, offset as int),
{
    if offset > data.len() || data.len() - offset < 8 {
        None
    } else {
        let lo = read_u32_le(data, offset).unwrap() as u64;
        let hi = read_u32_le(data, offset + 4).unwrap() as u64;
        proof {
            lemma_le64_bound(data@, offset as int);
        }
        Some(lo + 4294967296 * hi)
    }
}

} // verus!
