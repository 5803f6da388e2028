//! Little-endian field access on byte slices.
use vstd::prelude::*;

verus! {

/// The value of two bytes read as a little-endian unsigned integer.
pub open spec fn le_u16(b0: u8, b1: u8) -> int {
    b0 + 256 * b1
}

/// The value of four bytes read as a little-endian unsigned integer.
pub open spec fn le_u32(b0: u8, b1: u8, b2: u8, b3: u8) -> int {
    b0 + 256 * b1 + 65536 * b2 + 16777216 * b3
}

/// The little-endian `u16` stored at `offset` in `bytes`.
pub open spec fn field_u16(bytes: Seq<u8>, offset: int) -> int {
    le_u16(bytes[offset], bytes[offset + 1])
}

/// The little-endian `u32` stored at `offset` in `bytes`.
pub open spec fn field_u32(bytes: Seq<u8>, offset: int) -> int {
    le_u32(bytes[offset], bytes[offset + 1], bytes[offset + 2], bytes[offset + 3])
}

/// The bytes `start..end` of `bytes`.
pub fn range<'a>(bytes: &'a [u8], start: usize, end: usize) -> (out: &'a [u8])
    requires
        start <= end <= bytes@.len(),
    ensures
        out@ == bytes@.subrange(start as int, end as int),
{
    vstd::slice::slice_subrange(bytes, start, end)
}

/// The byte at `offset`.
pub fn read_u8(bytes: &[u8], offset: usize) -> (out: u8)
    requires
        offset < bytes@.len(),
    ensures
        out == bytes@[offset as int],
{
    bytes[offset]
}

/// The little-endian `u16` at `offset`.
pub fn read_u16(bytes: &[u8], offset: usize) -> (out: u16)
    requires
        offset + 2 <= bytes@.len(),
    ensures
        out == field_u16(bytes@, offset as int),
{
    let b0 = bytes[offset] as u16;
    let b1 = bytes[offset + 1] as u16;
    b0 + b1 * 256
}

/// The little-endian `u32` at `offset`.
pub fn read_u32(bytes: &[u8], offset: usize) -> (out: u32)
    requires
        offset + 4 <= bytes@.len(),
    ensures
        out == field_u32(bytes@, offset as int),
{
    let b0 = bytes[offset] as u32;
    let b1 = bytes[offset + 1] as u32;
    let b2 = bytes[offset + 2] as u32;
    let b3 = bytes[offset + 3] as u32;
    b0 + b1 * 256 + b2 * 65536 + b3 * 16777216
}

} // verus!
