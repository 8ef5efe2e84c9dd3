//! Little-endian integers as the ZIP format stores them.

use vstd::prelude::*;

verus! {

/// The number held by the two bytes of `s` that start at `at`, least
/// significant byte first.
pub open spec fn le_u16(s: Seq<u8>, at: int) -> int {
    s[at] as int + 256 * (s[at + 1] as int)
}

/// The number held by the four bytes of `s` that start at `at`.
pub open spec fn le_u32(s: Seq<u8>, at: int) -> int {
    le_u16(s, at) + 65536 * le_u16(s, at + 2)
}

/// The number held by the eight bytes of `s` that start at `at`.
pub open spec fn le_u64(s: Seq<u8>, at: int) -> int {
    le_u32(s, at) + 4294967296 * le_u32(s, at + 4)
}

/// The bytes that a read of at most `len` bytes at `offset` finds in `data`:
/// all of them where they exist, fewer at the end of the data, none past it.
pub open spec fn window(data: Seq<u8>, offset: int, len: int) -> Seq<u8> {
    let from = if offset < data.len() { offset } else { data.len() as int };
    let to = if offset + len < data.len() { offset + len } else { data.len() as int };
    if 0 <= from <= to {
        data.subrange(from, to)
    } else {
        Seq::empty()
    }
}

/// Reads the two bytes at `at` as a number.
pub(crate) fn get_u16(data: &[u8], at: usize) -> (r: u16)
    requires
        at + 2 <= data.len(),
    ensures
        r == le_u16(data@, at as int),
{
    let lo: u16 = data[at] as u16;
    let hi: u16 = data[at + 1] as u16;
    lo + hi * 256
}

/// Reads the four bytes at `at` as a number.
pub(crate) fn get_u32(data: &[u8], at: usize) -> (r: u32)
    requires
        at + 4 <= data.len(),
    ensures
        r == le_u32(data@, at as int),
{
    let lo: u32 = get_u16(data, at) as u32;
    let hi: u32 = get_u16(data, at + 2) as u32;
    lo + hi * 65536
}

/// Reads the eight bytes at `at` as a number.
pub(crate) fn get_u64(data: &[u8], at: usize) -> (r: u64)
    requires
        at + 8 <= data.len(),
    ensures
        r == le_u64(data@, at as int),
{
    let lo: u64 = get_u32(data, at) as u64;
    let hi: u64 = get_u32(data, at + 4) as u64;
    lo + hi * 4294967296
}

} // verus!
