//! The three hash functions that keys are built from. Their values are not
//! modelled: each is a name for what the hashing crate computes, and the rest
//! of the crate reasons about keys only through these names.

use vstd::prelude::*;

verus! {

/// The SHA-256 digest of `data`, 32 bytes.
pub uninterp spec fn sha256_digest(data: Seq<u8>) -> Seq<u8>;

/// The SHA-512 digest of `data`, 64 bytes.
pub uninterp spec fn sha512_digest(data: Seq<u8>) -> Seq<u8>;

/// The BLAKE3 hash of `data` at the default output length, 32 bytes.
pub uninterp spec fn blake3_digest(data: Seq<u8>) -> Seq<u8>;

/// Calls `sha2::Sha256::digest`. Believed, not proved: the 32 bytes returned
/// are the SHA-256 digest of `data`, the same for the same bytes.
#[verifier::external_body]
pub(crate) fn sha256(data: &[u8]) -> (digest: [u8; 32])
    ensures
        digest@ == sha256_digest(data@),
{
    <sha2::Sha256 as sha2::Digest>::digest(data).into()
}

/// Calls `sha2::Sha512::digest`. Believed, not proved: the 64 bytes returned
/// are the SHA-512 digest of `data`, the same for the same bytes.
#[verifier::external_body]
pub(crate) fn sha512(data: &[u8]) -> (digest: [u8; 64])
    ensures
        digest@ == sha512_digest(data@),
{
    <sha2::Sha512 as sha2::Digest>::digest(data).into()
}

/// Calls `blake3::hash`. Believed, not proved: the 32 bytes returned are the
/// BLAKE3 hash of `data`, the same for the same bytes.
#[verifier::external_body]
pub(crate) fn blake3(data: &[u8]) -> (digest: [u8; 32])
    ensures
        digest@ == blake3_digest(data@),
{
    blake3::hash(data).into()
}

} // verus!
