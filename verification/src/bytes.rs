//! Big-endian integer reads from a byte buffer.

use vstd::prelude::*;

verus! {

/// The value of the big-endian 16-bit integer at offset `i` of `s`.
pub open spec fn be16(s: Seq<u8>, i: int) -> int {
    (s[i] as int) * 0x100 + (s[i + 1] as int)
}

/// The value of the big-endian 32-bit integer at offset `i` of `s`.
pub open spec fn be32(s: Seq<u8>, i: int) -> int {
    (s[i] as int) * 0x1000000 + (s[i + 1] as int) * 0x10000 + (s[i + 2] as int) * 0x100 + (s[i
        + 3] as int)
}

/// Reads the big-endian 16-bit integer at offset `off` of `s`.
pub fn read_u16(s: &[u8], off: usize) -> (r: u16)
    requires
        off + 2 <= s@.len(),
    ensures
        r as int == be16(s@, off as int),
{
    (s[off] as u16) * 0x100 + (s[off + 1] as u16)
}

/// Reads the big-endian 32-bit integer at offset `off` of `s`.
pub fn read_u32(s: &[u8], off: usize) -> (r: u32)
    requires
        off + 4 <= s@.len(),
    ensures
        r as int == be32(s@, off as int),
{
    (s[off] as u32) * 0x1000000 + (s[off + 1] as u32) * 0x10000 + (s[off + 2] as u32) * 0x100 + (
    s[off + 3] as u32)
}

} // verus!
