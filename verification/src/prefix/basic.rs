use crate::derivation::basic::Basic;
use crate::derivation::self_signing::SelfSigning;
use crate::error::outcome;
use crate::error::CryptoFailure;
use crate::error::CryptoFailureKind;
use crate::error::CryptoFailureView;
use crate::error::Error;
use crate::error::Failure;
use crate::prefix::parse;
use crate::prefix::render;
use crate::prefix::Material;
use crate::prefix::SelfSigningPrefix;
use crate::signing::checked;
use crate::signing::ed25519_verification;
use crate::signing::ed25519_verify;
use crate::signing::secp256k1_verification;
use crate::signing::secp256k1_verify;
use crate::util::base64::fits;
use crate::util::base64::is_base64_text;
use crate::util::text::bytes_equal;
use vstd::prelude::*;

verus! {

/// A prefix that is a public key.
#[allow(non_camel_case_types)]
#[derive(Debug)]
pub enum BasicPrefix {
    ECDSAsecp256k1NT(Vec<u8>),
    ECDSAsecp256k1(Vec<u8>),
    Ed25519NT(Vec<u8>),
    Ed25519(Vec<u8>),
    Ed448NT(Vec<u8>),
    Ed448(Vec<u8>),
    X25519(Vec<u8>),
    X448(Vec<u8>),
}

impl View for BasicPrefix {
    type V = Material<Basic>;

    open spec fn view(&self) -> Material<Basic> {
        match self {
            BasicPrefix::ECDSAsecp256k1NT(d) => Material {
                kind: Basic::ECDSAsecp256k1NT,
                derivative: d@,
            },
            BasicPrefix::ECDSAsecp256k1(d) => Material {
                kind: Basic::ECDSAsecp256k1,
                derivative: d@,
            },
            BasicPrefix::Ed25519NT(d) => Material {
                kind: Basic::Ed25519NT,
                derivative: d@,
            },
            BasicPrefix::Ed25519(d) => Material {
                kind: Basic::Ed25519,
                derivative: d@,
            },
            BasicPrefix::Ed448NT(d) => Material {
                kind: Basic::Ed448NT,
                derivative: d@,
            },
            BasicPrefix::Ed448(d) => Material {
                kind: Basic::Ed448,
                derivative: d@,
            },
            BasicPrefix::X25519(d) => Material {
                kind: Basic::X25519,
                derivative: d@,
            },
            BasicPrefix::X448(d) => Material {
                kind: Basic::X448,
                derivative: d@,
            },
        }
    }
}

impl BasicPrefix {
    /// The prefix of the given kind with the given derivative.
    pub fn new(kind: Basic, derivative: Vec<u8>) -> (p: BasicPrefix)
        ensures
            p@ == (Material { kind, derivative: derivative@ }),
    {
        match kind {
            Basic::ECDSAsecp256k1NT => BasicPrefix::ECDSAsecp256k1NT(derivative),
            Basic::ECDSAsecp256k1 => BasicPrefix::ECDSAsecp256k1(derivative),
            Basic::Ed25519NT => BasicPrefix::Ed25519NT(derivative),
            Basic::Ed25519 => BasicPrefix::Ed25519(derivative),
            Basic::Ed448NT => BasicPrefix::Ed448NT(derivative),
            Basic::Ed448 => BasicPrefix::Ed448(derivative),
            Basic::X25519 => BasicPrefix::X25519(derivative),
            Basic::X448 => BasicPrefix::X448(derivative),
        }
    }

    /// How the prefix was derived.
    pub fn derivation(&self) -> (kind: Basic)
        ensures
            kind == self@.kind,
    {
        match self {
            BasicPrefix::ECDSAsecp256k1NT(_) => Basic::ECDSAsecp256k1NT,
            BasicPrefix::ECDSAsecp256k1(_) => Basic::ECDSAsecp256k1,
            BasicPrefix::Ed25519NT(_) => Basic::Ed25519NT,
            BasicPrefix::Ed25519(_) => Basic::Ed25519,
            BasicPrefix::Ed448NT(_) => Basic::Ed448NT,
            BasicPrefix::Ed448(_) => Basic::Ed448,
            BasicPrefix::X25519(_) => Basic::X25519,
            BasicPrefix::X448(_) => Basic::X448,
        }
    }

    /// The derived bytes.
    pub fn derivative(&self) -> (bytes: &Vec<u8>)
        ensures
            bytes@ == self@.derivative,
    {
        match self {
            BasicPrefix::ECDSAsecp256k1NT(d) => d,
            BasicPrefix::ECDSAsecp256k1(d) => d,
            BasicPrefix::Ed25519NT(d) => d,
            BasicPrefix::Ed25519(d) => d,
            BasicPrefix::Ed448NT(d) => d,
            BasicPrefix::Ed448(d) => d,
            BasicPrefix::X25519(d) => d,
            BasicPrefix::X448(d) => d,
        }
    }

    /// Whether the prefix is short enough to be written as text on this machine.
    pub fn is_encodable(&self) -> (ok: bool)
        ensures
            ok == self@.encodable(),
    {
        fits(self.derivative().as_slice())
    }

    /// The prefix as text: its derivation code, then its derivative in base64.
    ///
    /// The text is made of base64 characters only and reads back as this prefix.
    pub fn to_str(&self) -> (text: String)
        requires
            self@.encodable(),
        ensures
            text@ == self@.text(),
            Material::<Basic>::parse(text@) == Ok::<Material<Basic>, Failure>(self@),
            is_base64_text(text@),
    {
        let kind = self.derivation();
        render(&kind, self.derivative())
    }

    /// Reads a prefix from text.
    ///
    /// Fails with `ImproperPrefixType` where the text does not start with a
    /// code of this family, with `Base64DecodingError` where what follows the
    /// code is not base64, and with `DeserializationError` where it is too
    /// long to decode.
    pub fn from_str(s: &str) -> (res: Result<BasicPrefix, Error>)
        ensures
            outcome(res) == Material::<Basic>::parse(s@),
    {
        match parse::<Basic>(s) {
            Ok((kind, derivative)) => Ok(BasicPrefix::new(kind, derivative)),
            Err(e) => Err(e),
        }
    }

    /// What a signature scheme's answer means for a signature check: a
    /// signature that does not match is `false`, not an error; any other
    /// failure of the scheme is a `CryptoError`.
    pub open spec fn verdict(answer: Result<bool, CryptoFailureView>) -> Result<bool, Failure> {
        match answer {
            Ok(valid) => Ok(valid),
            Err(failure) => if failure.kind == CryptoFailureKind::SigningError {
                Ok(false)
            } else {
                Err(Failure::Crypto(failure))
            },
        }
    }

    /// Whether `signature` is a signature of `data` under the key `key`.
    ///
    /// Ed25519 keys check Ed25519 signatures and ECDSA secp256k1 keys check
    /// ECDSA secp256k1 signatures; any other pairing is an `ImproperPrefixType`.
    pub open spec fn verification(
        key: Material<Basic>,
        data: Seq<u8>,
        signature: Material<SelfSigning>,
    ) -> Result<bool, Failure> {
        match (key.kind, signature.kind) {
            (Basic::Ed25519, SelfSigning::Ed25519Sha512)
            | (Basic::Ed25519NT, SelfSigning::Ed25519Sha512) => Self::verdict(
                ed25519_verification(data, signature.derivative, key.derivative),
            ),
            (Basic::ECDSAsecp256k1, SelfSigning::ECDSAsecp256k1Sha256)
            | (Basic::ECDSAsecp256k1NT, SelfSigning::ECDSAsecp256k1Sha256) => Self::verdict(
                secp256k1_verification(data, signature.derivative, key.derivative),
            ),
            _ => Err(Failure::ImproperPrefixType),
        }
    }

    /// Turns a signature scheme's answer into the result of a signature check.
    pub fn interpret(answer: Result<bool, CryptoFailure>) -> (res: Result<bool, Error>)
        ensures
            outcome(res) == Self::verdict(checked(answer)),
    {
        match answer {
            Ok(valid) => Ok(valid),
            Err(failure) => {
                if failure.kind() == CryptoFailureKind::SigningError {
                    Ok(false)
                } else {
                    Err(Error::CryptoError(failure))
                }
            },
        }
    }

    /// Checks `signature` over `data` against this key.
    pub fn verify(&self, data: &[u8], signature: &SelfSigningPrefix) -> (res: Result<bool, Error>)
        ensures
            outcome(res) == Self::verification(self@, data@, signature@),
    {
        match (self.derivation(), signature.derivation()) {
            (Basic::Ed25519, SelfSigning::Ed25519Sha512)
            | (Basic::Ed25519NT, SelfSigning::Ed25519Sha512) => Self::interpret(
                ed25519_verify(
                    data,
                    signature.derivative().as_slice(),
                    self.derivative().as_slice(),
                ),
            ),
            (Basic::ECDSAsecp256k1, SelfSigning::ECDSAsecp256k1Sha256)
            | (Basic::ECDSAsecp256k1NT, SelfSigning::ECDSAsecp256k1Sha256) => Self::interpret(
                secp256k1_verify(
                    data,
                    signature.derivative().as_slice(),
                    self.derivative().as_slice(),
                ),
            ),
            _ => Err(Error::ImproperPrefixType),
        }
    }

}

impl Clone for BasicPrefix {
    fn clone(&self) -> (res: Self)
        ensures
            res@ == self@,
    {
        BasicPrefix::new(self.derivation(), self.derivative().clone())
    }
}

impl PartialEq for BasicPrefix {
    fn eq(&self, other: &Self) -> (r: bool) {
        self.derivation() == other.derivation() && bytes_equal(
            self.derivative(),
            other.derivative(),
        )
    }
}

impl vstd::std_specs::cmp::PartialEqSpecImpl for BasicPrefix {
    open spec fn obeys_eq_spec() -> bool {
        true
    }

    open spec fn eq_spec(&self, other: &Self) -> bool {
        self@ == other@
    }
}

} // verus!
