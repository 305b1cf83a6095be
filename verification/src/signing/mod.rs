use crate::error::CryptoFailure;
use crate::error::CryptoFailureView;
use ursa::keys::PublicKey;
use ursa::signatures::ed25519::Ed25519Sha512;
use ursa::signatures::secp256k1::EcdsaSecp256k1Sha256;
use ursa::signatures::SignatureScheme;
use ursa::CryptoError;
use vstd::prelude::*;

verus! {

/// What checking an Ed25519 signature over a message against a public key gives.
pub uninterp spec fn ed25519_verification(
    message: Seq<u8>,
    signature: Seq<u8>,
    public_key: Seq<u8>,
) -> Result<bool, CryptoFailureView>;

/// What checking an ECDSA secp256k1 signature over the SHA-256 digest of a
/// message against a public key gives.
pub uninterp spec fn secp256k1_verification(
    message: Seq<u8>,
    signature: Seq<u8>,
    public_key: Seq<u8>,
) -> Result<bool, CryptoFailureView>;

/// What a signature check gave, as contracts speak of it.
pub open spec fn checked(res: Result<bool, CryptoFailure>) -> Result<bool, CryptoFailureView> {
    match res {
        Ok(valid) => Ok(valid),
        Err(failure) => Err(failure@),
    }
}

/// Checks an Ed25519 signature.
///
/// Wraps `SignatureScheme::verify` of `ursa::signatures::ed25519::Ed25519Sha512`
/// and hands its failure on variant by variant. The contract names the
/// outcome, which depends on the three byte strings alone.
#[verifier::external_body]
pub(crate) fn ed25519_verify(message: &[u8], signature: &[u8], public_key: &[u8]) -> (res: Result<
    bool,
    CryptoFailure,
>)
    ensures
        checked(res) == ed25519_verification(message@, signature@, public_key@),
{
    let key = PublicKey(public_key.to_vec());
    match Ed25519Sha512::new().verify(message, signature, &key) {
        Ok(valid) => Ok(valid),
        Err(CryptoError::NoSuchAlgorithm(m)) => Err(CryptoFailure::NoSuchAlgorithm(m)),
        Err(CryptoError::ParseError(m)) => Err(CryptoFailure::ParseError(m)),
        Err(CryptoError::SigningError(m)) => Err(CryptoFailure::SigningError(m)),
        Err(CryptoError::KeyGenError(m)) => Err(CryptoFailure::KeyGenError(m)),
        Err(CryptoError::DigestGenError(m)) => Err(CryptoFailure::DigestGenError(m)),
        Err(CryptoError::GeneralError(m)) => Err(CryptoFailure::GeneralError(m)),
    }
}

/// Checks an ECDSA secp256k1 signature over the SHA-256 digest of a message.
///
/// Wraps `SignatureScheme::verify` of
/// `ursa::signatures::secp256k1::EcdsaSecp256k1Sha256` and hands its failure on
/// variant by variant. The contract names the outcome, which depends on the
/// three byte strings alone.
#[verifier::external_body]
pub(crate) fn secp256k1_verify(message: &[u8], signature: &[u8], public_key: &[u8]) -> (res:
    Result<bool, CryptoFailure>)
    ensures
        checked(res) == secp256k1_verification(message@, signature@, public_key@),
{
    let key = PublicKey(public_key.to_vec());
    match EcdsaSecp256k1Sha256::new().verify(message, signature, &key) {
        Ok(valid) => Ok(valid),
        Err(CryptoError::NoSuchAlgorithm(m)) => Err(CryptoFailure::NoSuchAlgorithm(m)),
        Err(CryptoError::ParseError(m)) => Err(CryptoFailure::ParseError(m)),
        Err(CryptoError::SigningError(m)) => Err(CryptoFailure::SigningError(m)),
        Err(CryptoError::KeyGenError(m)) => Err(CryptoFailure::KeyGenError(m)),
        Err(CryptoError::DigestGenError(m)) => Err(CryptoFailure::DigestGenError(m)),
        Err(CryptoError::GeneralError(m)) => Err(CryptoFailure::GeneralError(m)),
    }
}

} // verus!
