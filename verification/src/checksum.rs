//! Checksums and digests: CRC-32C of binding-header bodies and SHA-256 of
//! checkpoints and receipts.

use vstd::prelude::*;

verus! {

/// The CRC-32C checksum (`crc::CRC_32_ISCSI`) of a byte string.
pub uninterp spec fn crc32c_checksum(bytes: Seq<u8>) -> u32;

/// CRC-32C checksum of `bytes`, computed by the `crc` crate.
///
/// Trusted: `crc::Crc::<u32>::checksum` with the `CRC_32_ISCSI` catalogue
/// algorithm returns the checksum of exactly the bytes given, and depends on
/// nothing else; the contract names that result and claims nothing more.
#[verifier::external_body]
pub(crate) fn crc32c(bytes: &[u8]) -> (c: u32)
    ensures
        c == crc32c_checksum(bytes@),
{
    crc::Crc::<u32>::new(&crc::CRC_32_ISCSI).checksum(bytes)
}


/// The SHA-256 digest of a byte string.
pub uninterp spec fn sha256_digest(bytes: Seq<u8>) -> Seq<u8>;

/// SHA-256 digest of `bytes`, computed by the `sha2` crate.
///
/// Trusted: `sha2::Sha256::digest` returns the 32-byte digest of exactly the
/// bytes given; the contract names that result and claims nothing more.
#[verifier::external_body]
pub(crate) fn sha256(bytes: &[u8]) -> (d: [u8; 32])
    ensures
        d@ == sha256_digest(bytes@),
{
    <sha2::Sha256 as sha2::Digest>::digest(bytes).into()
}

} // verus!
