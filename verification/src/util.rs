//! Little-endian numbers in byte buffers.

use vstd::prelude::*;

verus! {

/// The 16-bit number that the two bytes at `at` hold, low byte first.
pub open spec fn le16_at(bytes: Seq<u8>, at: int) -> u16 {
    (bytes[at] + 0x100 * bytes[at + 1]) as u16
}

/// The 32-bit number that the four bytes at `at` hold, low byte first.
pub open spec fn le32_at(bytes: Seq<u8>, at: int) -> u32 {
    (bytes[at] + 0x100 * bytes[at + 1] + 0x1_0000 * bytes[at + 2] + 0x100_0000 * bytes[at + 3]) as u32
}

/// The two bytes of a 16-bit number, low byte first.
pub open spec fn le16_bytes(value: u16) -> Seq<u8> {
    seq![(value % 0x100) as u8, (value / 0x100) as u8]
}

/// The four bytes of a 32-bit number, low byte first.
pub open spec fn le32_bytes(value: u32) -> Seq<u8> {
    seq![
        (value % 0x100) as u8,
        (value / 0x100 % 0x100) as u8,
        (value / 0x1_0000 % 0x100) as u8,
        (value / 0x100_0000) as u8,
    ]
}

/// A buffer that holds the bytes of a 16-bit number at `at` is read there
/// as that number.
pub proof fn lemma_le16_holds(bytes: Seq<u8>, at: int, value: u16)
    requires
        bytes[at] == le16_bytes(value)[0],
        bytes[at + 1] == le16_bytes(value)[1],
    ensures
        le16_at(bytes, at) == value,
{
}

/// A buffer that holds the bytes of a 32-bit number at `at` is read there
/// as that number.
pub proof fn lemma_le32_holds(bytes: Seq<u8>, at: int, value: u32)
    requires
        bytes[at] == le32_bytes(value)[0],
        bytes[at + 1] == le32_bytes(value)[1],
        bytes[at + 2] == le32_bytes(value)[2],
        bytes[at + 3] == le32_bytes(value)[3],
    ensures
        le32_at(bytes, at) == value,
{
}

/// Reads the 16-bit little-endian number at `at`.
pub fn le16(bytes: &[u8], at: usize) -> (value: u16)
    requires
        at + 2 <= bytes@.len(),
    ensures
        value == le16_at(bytes@, at as int),
{
    bytes[at] as u16 + 0x100 * (bytes[at + 1] as u16)
}

/// Reads the 32-bit little-endian number at `at`.
pub fn le32(bytes: &[u8], at: usize) -> (value: u32)
    requires
        at + 4 <= bytes@.len(),
    ensures
        value == le32_at(bytes@, at as int),
{
    bytes[at] as u32 + 0x100 * (bytes[at + 1] as u32) + 0x1_0000 * (bytes[at + 2] as u32) + 0x100_0000
        * (bytes[at + 3] as u32)
}

} // verus!
