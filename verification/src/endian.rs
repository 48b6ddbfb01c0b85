//! Multi-byte integers as they stand in a byte stream.

use vstd::prelude::*;

verus! {

/// The 16-bit integer whose least significant byte comes first.
pub open spec fn spec_u16_from_le(first: u8, second: u8) -> u16 {
    (first + 256 * second) as u16
}

/// The 16-bit integer whose most significant byte comes first.
pub open spec fn spec_u16_from_be(first: u8, second: u8) -> u16 {
    (256 * first + second) as u16
}

/// The 32-bit integer whose least significant byte comes first.
pub open spec fn spec_u32_from_le(first: u8, second: u8, third: u8, fourth: u8) -> u32 {
    (first + 256 * second + 65536 * third + 16777216 * fourth) as u32
}

/// Assembles a 16-bit integer from its bytes, least significant first.
#[verifier::when_used_as_spec(spec_u16_from_le)]
pub fn u16_from_le(first: u8, second: u8) -> (value: u16)
    ensures
        value == first + 256 * second,
        value == spec_u16_from_le(first, second),
{
    first as u16 + 256 * (second as u16)
}

/// Assembles a 16-bit integer from its bytes, most significant first.
#[verifier::when_used_as_spec(spec_u16_from_be)]
pub fn u16_from_be(first: u8, second: u8) -> (value: u16)
    ensures
        value == 256 * first + second,
        value == spec_u16_from_be(first, second),
{
    256 * (first as u16) + second as u16
}

/// Assembles a 32-bit integer from its bytes, least significant first.
#[verifier::when_used_as_spec(spec_u32_from_le)]
pub fn u32_from_le(first: u8, second: u8, third: u8, fourth: u8) -> (value: u32)
    ensures
        value == first + 256 * second + 65536 * third + 16777216 * fourth,
        value == spec_u32_from_le(first, second, third, fourth),
{
    first as u32 + 256 * (second as u32) + 65536 * (third as u32) + 16777216 * (fourth as u32)
}

} // verus!
