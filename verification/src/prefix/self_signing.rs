use crate::derivation::self_signing::SelfSigning;
use crate::error::outcome;
use crate::error::Error;
use crate::error::Failure;
use crate::prefix::parse;
use crate::prefix::render;
use crate::prefix::Material;
use crate::util::base64::fits;
use crate::util::base64::is_base64_text;
use crate::util::text::bytes_equal;
use vstd::prelude::*;

verus! {

/// A prefix that is a signature.
#[allow(non_camel_case_types)]
#[derive(Debug)]
pub enum SelfSigningPrefix {
    ECDSAsecp256k1Sha256(Vec<u8>),
    Ed25519Sha512(Vec<u8>),
    Ed448(Vec<u8>),
}

impl View for SelfSigningPrefix {
    type V = Material<SelfSigning>;

    open spec fn view(&self) -> Material<SelfSigning> {
        match self {
            SelfSigningPrefix::ECDSAsecp256k1Sha256(d) => Material {
                kind: SelfSigning::ECDSAsecp256k1Sha256,
                derivative: d@,
            },
            SelfSigningPrefix::Ed25519Sha512(d) => Material {
                kind: SelfSigning::Ed25519Sha512,
                derivative: d@,
            },
            SelfSigningPrefix::Ed448(d) => Material {
                kind: SelfSigning::Ed448,
                derivative: d@,
            },
        }
    }
}

impl SelfSigningPrefix {
    /// The prefix of the given kind with the given derivative.
    pub fn new(kind: SelfSigning, derivative: Vec<u8>) -> (p: SelfSigningPrefix)
        ensures
            p@ == (Material { kind, derivative: derivative@ }),
    {
        match kind {
            SelfSigning::ECDSAsecp256k1Sha256 => SelfSigningPrefix::ECDSAsecp256k1Sha256(derivative),
            SelfSigning::Ed25519Sha512 => SelfSigningPrefix::Ed25519Sha512(derivative),
            SelfSigning::Ed448 => SelfSigningPrefix::Ed448(derivative),
        }
    }

    /// How the prefix was derived.
    pub fn derivation(&self) -> (kind: SelfSigning)
        ensures
            kind == self@.kind,
    {
        match self {
            SelfSigningPrefix::ECDSAsecp256k1Sha256(_) => SelfSigning::ECDSAsecp256k1Sha256,
            SelfSigningPrefix::Ed25519Sha512(_) => SelfSigning::Ed25519Sha512,
            SelfSigningPrefix::Ed448(_) => SelfSigning::Ed448,
        }
    }

    /// The derived bytes.
    pub fn derivative(&self) -> (bytes: &Vec<u8>)
        ensures
            bytes@ == self@.derivative,
    {
        match self {
            SelfSigningPrefix::ECDSAsecp256k1Sha256(d) => d,
            SelfSigningPrefix::Ed25519Sha512(d) => d,
            SelfSigningPrefix::Ed448(d) => d,
        }
    }

    /// Whether the prefix is short enough to be written as text on this machine.
    pub fn is_encodable(&self) -> (ok: bool)
        ensures
            ok == self@.encodable(),
    {
        fits(self.derivative().as_slice())
    }

    /// The prefix as text: its derivation code, then its derivative in base64.
    ///
    /// The text is made of base64 characters only and reads back as this prefix.
    pub fn to_str(&self) -> (text: String)
        requires
            self@.encodable(),
        ensures
            text@ == self@.text(),
            Material::<SelfSigning>::parse(text@) == Ok::<Material<SelfSigning>, Failure>(self@),
            is_base64_text(text@),
    {
        let kind = self.derivation();
        render(&kind, self.derivative())
    }

    /// Reads a prefix from text.
    ///
    /// Fails with `ImproperPrefixType` where the text does not start with a
    /// code of this family, with `Base64DecodingError` where what follows the
    /// code is not base64, and with `DeserializationError` where it is too
    /// long to decode.
    pub fn from_str(s: &str) -> (res: Result<SelfSigningPrefix, Error>)
        ensures
            outcome(res) == Material::<SelfSigning>::parse(s@),
    {
        match parse::<SelfSigning>(s) {
            Ok((kind, derivative)) => Ok(SelfSigningPrefix::new(kind, derivative)),
            Err(e) => Err(e),
        }
    }

}

impl Clone for SelfSigningPrefix {
    fn clone(&self) -> (res: Self)
        ensures
            res@ == self@,
    {
        SelfSigningPrefix::new(self.derivation(), self.derivative().clone())
    }
}

impl PartialEq for SelfSigningPrefix {
    fn eq(&self, other: &Self) -> (r: bool) {
        self.derivation() == other.derivation() && bytes_equal(
            self.derivative(),
            other.derivative(),
        )
    }
}

impl vstd::std_specs::cmp::PartialEqSpecImpl for SelfSigningPrefix {
    open spec fn obeys_eq_spec() -> bool {
        true
    }

    open spec fn eq_spec(&self, other: &Self) -> bool {
        self@ == other@
    }
}

} // verus!
