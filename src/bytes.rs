//! Little-endian integers inside byte sequences.

use vstd::prelude::*;

verus! {

/// The unsigned 32-bit little-endian integer at `at`.
pub open spec fn le_u32(b: Seq<u8>, at: int) -> int {
    b[at] + 256 * b[at + 1] + 65536 * b[at + 2] + 16777216 * b[at + 3]
}

/// The unsigned 64-bit little-endian integer at `at`.
pub open spec fn le_u64(b: Seq<u8>, at: int) -> int {
    le_u32(b, at) + 4294967296 * le_u32(b, at + 4)
}

/// Reads the unsigned 32-bit little-endian integer at `at`.
pub fn read_le_u32(b: &[u8], at: usize) -> (r: u32)
    requires
        at + 4 <= b@.len(),
    ensures
        r as int == le_u32(b@, at as int),
{
    (b[at] as u32) + 256 * (b[at + 1] as u32) + 65536 * (b[at + 2] as u32) + 16777216 * (
    b[at + 3] as u32)
}

/// Reads the unsigned 64-bit little-endian integer at `at`.
pub fn read_le_u64(b: &[u8], at: usize) -> (r: u64)
    requires
        at + 8 <= b@.len(),
    ensures
        r as int == le_u64(b@, at as int),
{
    let n = b.len();
    assert(at + 4 <= n);
    let lo = read_le_u32(b, at) as u64;
    let hi = read_le_u32(b, at + 4) as u64;
    lo + 4294967296 * hi
}

} // verus!
