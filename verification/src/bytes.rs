//! Little-endian integers in a byte sequence.

use vstd::prelude::*;

verus! {

/// The unsigned 16-bit integer that the two bytes at `off` spell, least
/// significant byte first.
pub open spec fn le_u16(s: Seq<u8>, off: int) -> u16 {
    (s[off] as int + 0x100 * (s[off + 1] as int)) as u16
}

/// The unsigned 32-bit integer that the four bytes at `off` spell, least
/// significant byte first.
pub open spec fn le_u32(s: Seq<u8>, off: int) -> u32 {
    (le_u16(s, off) as int + 0x1_0000 * (le_u16(s, off + 2) as int)) as u32
}

/// The unsigned 64-bit integer that the eight bytes at `off` spell, least
/// significant byte first.
pub open spec fn le_u64(s: Seq<u8>, off: int) -> u64 {
    (le_u32(s, off) as int + 0x1_0000_0000 * (le_u32(s, off + 4) as int)) as u64
}

/// `n` rounded up to the next multiple of 8.
pub open spec fn pad8(n: int) -> int {
    (n + 7) / 8 * 8
}

/// Reads the 16-bit integer at `off`.
pub(crate) fn read_u16(s: &[u8], off: usize) -> (r: u16)
    requires
        off + 2 <= s@.len(),
    ensures
        r == le_u16(s@, off as int),
{
    assert(s@.len() == s.len());
    let b0: u16 = s[off] as u16;
    let b1: u16 = s[off + 1] as u16;
    b0 + 0x100 * b1
}

/// Reads the 32-bit integer at `off`.
pub(crate) fn read_u32(s: &[u8], off: usize) -> (r: u32)
    requires
        off + 4 <= s@.len(),
    ensures
        r == le_u32(s@, off as int),
{
    assert(s@.len() == s.len());
    let lo: u32 = read_u16(s, off) as u32;
    let hi: u32 = read_u16(s, off + 2) as u32;
    lo + 0x1_0000 * hi
}

/// Reads the 64-bit integer at `off`.
pub(crate) fn read_u64(s: &[u8], off: usize) -> (r: u64)
    requires
        off + 8 <= s@.len(),
    ensures
        r == le_u64(s@, off as int),
{
    assert(s@.len() == s.len());
    let lo: u64 = read_u32(s, off) as u64;
    let hi: u64 = read_u32(s, off + 4) as u64;
    lo + 0x1_0000_0000 * hi
}

} // verus!
