//! Little-endian integers in byte sequences.

use vstd::prelude::*;

verus! {

/// The 16-bit little-endian integer whose first byte is `s[i]`.
pub open spec fn le_u16(s: Seq<u8>, i: int) -> int {
    s[i] + 0x100 * s[i + 1]
}

/// The 32-bit little-endian integer whose first byte is `s[i]`.
pub open spec fn le_u32(s: Seq<u8>, i: int) -> int {
    s[i] + 0x100 * s[i + 1] + 0x1_0000 * s[i + 2] + 0x100_0000 * s[i + 3]
}

/// The 64-bit little-endian integer whose first byte is `s[i]`.
pub open spec fn le_u64(s: Seq<u8>, i: int) -> int {
    le_u32(s, i) + 0x1_0000_0000 * le_u32(s, i + 4)
}

/// Whether `width` bytes from index `offset` on lie inside a sequence of
/// `len` bytes.
pub open spec fn holds(len: nat, offset: int, width: int) -> bool {
    0 <= offset && offset + width <= len
}

/// The 16-bit little-endian integer at `offset`, where `bytes` holds it.
pub fn read_u16(bytes: &[u8], offset: usize) -> (value: Option<u16>)
    ensures
        value == (if holds(bytes@.len(), offset as int, 2) {
            Some(le_u16(bytes@, offset as int) as u16)
        } else {
            None::<u16>
        }),
{
    if offset > bytes.len() || bytes.len() - offset < 2 {
        return None;
    }
    let b0 = bytes[offset] as u16;
    let b1 = bytes[offset + 1] as u16;
    Some(b0 + 0x100 * b1)
}

/// The 32-bit little-endian integer at `offset`, where `bytes` holds it.
pub fn read_u32(bytes: &[u8], offset: usize) -> (value: Option<u32>)
    ensures
        value == (if holds(bytes@.len(), offset as int, 4) {
            Some(le_u32(bytes@, offset as int) as u32)
        } else {
            None::<u32>
        }),
{
    if offset > bytes.len() || bytes.len() - offset < 4 {
        return None;
    }
    let b0 = bytes[offset] as u32;
    let b1 = bytes[offset + 1] as u32;
    let b2 = bytes[offset + 2] as u32;
    let b3 = bytes[offset + 3] as u32;
    Some(b0 + 0x100 * b1 + 0x1_0000 * b2 + 0x100_0000 * b3)
}

/// The 64-bit little-endian integer at `offset`, where `bytes` holds it.
pub fn read_u64(bytes: &[u8], offset: usize) -> (value: Option<u64>)
    ensures
        value == (if holds(bytes@.len(), offset as int, 8) {
            Some(le_u64(bytes@, offset as int) as u64)
        } else {
            None::<u64>
        }),
{
    if offset > bytes.len() || bytes.len() - offset < 8 {
        return None;
    }
    let low = match read_u32(bytes, offset) {
        Some(v) => v as u64,
        None => return None,
    };
    let high = match read_u32(bytes, offset + 4) {
        Some(v) => v as u64,
        None => return None,
    };
    Some(low + 0x1_0000_0000 * high)
}

} // verus!
