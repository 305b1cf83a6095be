use vstd::prelude::*;

pub mod basic;
pub mod self_addressing;
pub mod self_signing;

verus! {

/// The SHA3-256 digest of a byte sequence.
pub uninterp spec fn sha3_256(data: Seq<u8>) -> Seq<u8>;

/// The SHA3-512 digest of a byte sequence.
pub uninterp spec fn sha3_512(data: Seq<u8>) -> Seq<u8>;

/// The SHA2-256 digest of a byte sequence.
pub uninterp spec fn sha2_256(data: Seq<u8>) -> Seq<u8>;

/// The SHA2-512 digest of a byte sequence.
pub uninterp spec fn sha2_512(data: Seq<u8>) -> Seq<u8>;

/// The Blake2b digest of a byte sequence, 512 bits wide.
pub uninterp spec fn blake2b_512(data: Seq<u8>) -> Seq<u8>;

/// The Blake2s digest of a byte sequence, 256 bits wide.
pub uninterp spec fn blake2s_256(data: Seq<u8>) -> Seq<u8>;

/// Computes the SHA3-256 digest of the input.
///
/// Wraps `Digest::digest` of `ursa::hash::sha3::Sha3_256`; the contract names
/// the digest, which depends on the input alone, and states its length,
/// which the algorithm fixes.
#[verifier::external_body]
pub(crate) fn sha3_256_digest(input: &[u8]) -> (digest: Vec<u8>)
    ensures
        digest@ == sha3_256(input@),
        digest@.len() == 32,
{
    <ursa::hash::sha3::Sha3_256 as ursa::hash::Digest>::digest(input).to_vec()
}

/// Computes the SHA3-512 digest of the input.
///
/// Wraps `Digest::digest` of `ursa::hash::sha3::Sha3_512`; the contract names
/// the digest, which depends on the input alone, and states its length,
/// which the algorithm fixes.
#[verifier::external_body]
pub fn sha3_512_digest(input: &[u8]) -> (digest: Vec<u8>)
    ensures
        digest@ == sha3_512(input@),
        digest@.len() == 64,
{
    <ursa::hash::sha3::Sha3_512 as ursa::hash::Digest>::digest(input).to_vec()
}

/// Computes the SHA2-256 digest of the input.
///
/// Wraps `Digest::digest` of `ursa::hash::sha2::Sha256`; the contract names
/// the digest, which depends on the input alone, and states its length,
/// which the algorithm fixes.
#[verifier::external_body]
pub(crate) fn sha2_256_digest(input: &[u8]) -> (digest: Vec<u8>)
    ensures
        digest@ == sha2_256(input@),
        digest@.len() == 32,
{
    <ursa::hash::sha2::Sha256 as ursa::hash::Digest>::digest(input).to_vec()
}

/// Computes the SHA2-512 digest of the input.
///
/// Wraps `Digest::digest` of `ursa::hash::sha2::Sha512`; the contract names
/// the digest, which depends on the input alone, and states its length,
/// which the algorithm fixes.
#[verifier::external_body]
pub(crate) fn sha2_512_digest(input: &[u8]) -> (digest: Vec<u8>)
    ensures
        digest@ == sha2_512(input@),
        digest@.len() == 64,
{
    <ursa::hash::sha2::Sha512 as ursa::hash::Digest>::digest(input).to_vec()
}

/// Computes the 512-bit Blake2b digest of the input.
///
/// Wraps `Digest::digest` of `ursa::blake2::Blake2b`; the contract names the
/// digest, which depends on the input alone, and states its length, which
/// the algorithm fixes.
#[verifier::external_body]
pub(crate) fn blake2b_512_digest(input: &[u8]) -> (digest: Vec<u8>)
    ensures
        digest@ == blake2b_512(input@),
        digest@.len() == 64,
{
    <ursa::blake2::Blake2b as ursa::hash::Digest>::digest(input).to_vec()
}

/// Computes the 256-bit Blake2s digest of the input.
///
/// Wraps `Digest::digest` of `ursa::blake2::Blake2s`; the contract names the
/// digest, which depends on the input alone, and states its length, which
/// the algorithm fixes.
#[verifier::external_body]
pub(crate) fn blake2s_256_digest(input: &[u8]) -> (digest: Vec<u8>)
    ensures
        digest@ == blake2s_256(input@),
        digest@.len() == 32,
{
    <ursa::blake2::Blake2s as ursa::hash::Digest>::digest(input).to_vec()
}

} // verus!
