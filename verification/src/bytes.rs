//! Little-endian values in register data.
use vstd::prelude::*;

verus! {

/// The 16-bit value of which `s` holds the bytes, the lowest first.
pub open spec fn le16(s: Seq<u8>) -> int {
    s[0] + 0x100 * s[1]
}

/// The 32-bit value of which `s` holds the bytes from `at` on, the lowest first.
pub open spec fn le32(s: Seq<u8>, at: int) -> int {
    s[at] + 0x100 * s[at + 1] + 0x1_0000 * s[at + 2] + 0x100_0000 * s[at + 3]
}

/// The 64-bit value of which `s` holds the bytes, the lowest first.
pub open spec fn le64(s: Seq<u8>) -> int {
    le32(s, 0) + 0x1_0000_0000 * le32(s, 4)
}

/// A cast to 32 bits keeps the lower half.
pub proof fn lemma_low_half(x: u64)
    by (bit_vector)
    ensures
        x as u32 == x % 0x1_0000_0000,
{
}

/// Reads a 16-bit value.
pub fn u16_from_le(data: &[u8]) -> (v: u16)
    requires
        data@.len() >= 2,
    ensures
        v == le16(data@),
{
    data[0] as u16 + 0x100 * data[1] as u16
}

/// Reads the 32-bit value that starts at `at`.
pub fn u32_from_le(data: &[u8], at: usize) -> (v: u32)
    requires
        at + 4 <= data@.len(),
    ensures
        v == le32(data@, at as int),
{
    data[at] as u32 + 0x100 * data[at + 1] as u32 + 0x1_0000 * data[at + 2] as u32 + 0x100_0000
        * data[at + 3] as u32
}

} // verus!
