//! Conventions shared by the protocol readers.

use vstd::prelude::*;

verus! {

/// Wire bytes are read least significant first.
pub open spec fn le16(b0: u8, b1: u8) -> u16 {
    (b0 as int + 256 * (b1 as int)) as u16
}

/// Wire bytes are read most significant first.
pub open spec fn be16(b0: u8, b1: u8) -> u16 {
    (256 * (b0 as int) + b1 as int) as u16
}

/// Wire bytes are read most significant first.
pub open spec fn be32(b0: u8, b1: u8, b2: u8, b3: u8) -> u32 {
    (16777216 * (b0 as int) + 65536 * (b1 as int) + 256 * (b2 as int) + b3 as int) as u32
}

/// A sequence byte of zero means that the sender does not number its frames.
pub open spec fn nonzero(value: u8) -> Option<u8> {
    if value == 0 {
        None
    } else {
        Some(value)
    }
}

/// Reads a byte in which zero stands for absent.
pub fn optional_nonzero_u8(value: u8) -> (r: Option<u8>)
    ensures
        r == nonzero(value),
{
    if value == 0 {
        None
    } else {
        Some(value)
    }
}

/// The `u16` of two bytes, least significant first.
pub fn u16_from_le(b0: u8, b1: u8) -> (v: u16)
    ensures
        v == le16(b0, b1),
{
    let lo: u16 = b0 as u16;
    let hi: u16 = b1 as u16;
    hi * 256 + lo
}

/// The `u16` of two bytes, most significant first.
pub fn u16_from_be(b0: u8, b1: u8) -> (v: u16)
    ensures
        v == be16(b0, b1),
{
    let hi: u16 = b0 as u16;
    let lo: u16 = b1 as u16;
    hi * 256 + lo
}

/// The `u32` of four bytes, most significant first.
pub fn u32_from_be(b0: u8, b1: u8, b2: u8, b3: u8) -> (v: u32)
    ensures
        v == be32(b0, b1, b2, b3),
{
    let a: u32 = b0 as u32;
    let b: u32 = b1 as u32;
    let c: u32 = b2 as u32;
    let d: u32 = b3 as u32;
    a * 16777216 + b * 65536 + c * 256 + d
}

/// How a decoder's answer relates to its model: same outcome, and in the
/// success case a frame whose view is the model's frame.
pub open spec fn decoded_as<T: View, E>(r: Result<Option<T>, E>, m: Result<Option<T::V>, E>) -> bool {
    match r {
        Ok(Some(frame)) => m == Ok::<Option<T::V>, E>(Some(frame@)),
        Ok(None) => m == Ok::<Option<T::V>, E>(None),
        Err(e) => m == Err::<Option<T::V>, E>(e),
    }
}

} // verus!
