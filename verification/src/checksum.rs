//! The checksum that guards a chunk, computed by the `crc` crate.

use vstd::prelude::*;

verus! {

/// The CRC-32 of `bytes` with the IEEE polynomial, the variant that zlib and
/// PNG use. It stands for what `crc::crc32::checksum_ieee` returns; nothing
/// more is said of it here than that it depends on the bytes alone.
pub uninterp spec fn crc32_ieee(bytes: Seq<u8>) -> u32;

/// Trusted: calls `crc::crc32::checksum_ieee`, which returns the CRC-32
/// (IEEE) of the bytes it is given. That function reads the slice against a
/// fixed table; it cannot panic, and its result depends on the bytes alone.
#[verifier::external_body]
pub(crate) fn checksum(bytes: &[u8]) -> (sum: u32)
    ensures
        sum == crc32_ieee(bytes@),
{
    crc::crc32::checksum_ieee(bytes)
}

} // verus!
