//! The CRC-32 checksum, computed by the `crc32fast` crate.
use vstd::prelude::*;

verus! {

/// The CRC-32 (IEEE 802.3 polynomial, as used by zlib and PNG) of a byte string.
pub uninterp spec fn crc32_ieee(data: Seq<u8>) -> u32;

/// Calls `crc32fast::hash`, which returns the CRC-32 (IEEE) checksum of `data`. The contract
/// claims no more than that the result is that checksum of exactly the bytes given, a value
/// that depends on those bytes alone.
#[verifier::external_body]
pub(crate) fn crc32(data: &[u8]) -> (r: u32)
    ensures
        r == crc32_ieee(data@),
{
    crc32fast::hash(data)
}

} // verus!
