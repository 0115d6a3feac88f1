//! The CRC-16/X.25 checksum that protects every tag body.

use vstd::prelude::*;

verus! {

/// The CRC-16/X.25 checksum of `bytes`, as the `crc` crate computes it.
pub uninterp spec fn crc16_x25(bytes: Seq<u8>) -> u16;

/// Calls `crc::crc16::checksum_x25`. The result is not computed by verified
/// code: the contract only gives it the name `crc16_x25`, so that a writer
/// and a reader of the same bytes agree on it.
#[verifier::external_body]
pub(crate) fn checksum_x25(bytes: &[u8]) -> (sum: u16)
    ensures
        sum == crc16_x25(bytes@),
{
    crc::crc16::checksum_x25(bytes)
}

} // verus!
