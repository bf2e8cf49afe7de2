//! The CRC-32 that guards a chunk's type and payload.

use vstd::prelude::*;

verus! {

/// The CRC-32 of `bytes` in the IEEE 802.3 variant: reflected polynomial
/// `0xEDB88320`, initial value and final xor `0xFFFFFFFF`.
pub uninterp spec fn crc32_ieee(bytes: Seq<u8>) -> u32;

/// Calls `crc::crc32::checksum_ieee`, which is trusted to compute the IEEE
/// CRC-32 of the bytes it is given and of nothing else.
#[verifier::external_body]
pub(crate) fn checksum_ieee(bytes: &[u8]) -> (sum: u32)
    ensures
        sum == crc32_ieee(bytes@),
{
    crc::crc32::checksum_ieee(bytes)
}

} // verus!
