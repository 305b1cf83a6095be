use crate::derivation::self_addressing::SelfAddressing;
use crate::error::outcome;
use crate::error::Error;
use crate::error::Failure;
use crate::prefix::parse;
use crate::prefix::render;
use crate::prefix::Material;
use crate::util::base64::fits;
use crate::util::base64::is_base64_text;
use crate::util::text::bytes_equal;
use vstd::prelude::*;

verus! {

/// A prefix that is a digest of the content it refers to.
#[allow(non_camel_case_types)]
#[derive(Debug)]
pub enum SelfAddressingPrefix {
    Blake3_256(Vec<u8>),
    Blake2B256(Vec<u8>),
    Blake2S256(Vec<u8>),
    SHA3_256(Vec<u8>),
    SHA2_256(Vec<u8>),
    Blake3_512(Vec<u8>),
    SHA3_512(Vec<u8>),
    Blake2B512(Vec<u8>),
    SHA2_512(Vec<u8>),
}

impl View for SelfAddressingPrefix {
    type V = Material<SelfAddressing>;

    open spec fn view(&self) -> Material<SelfAddressing> {
        match self {
            SelfAddressingPrefix::Blake3_256(d) => Material {
                kind: SelfAddressing::Blake3_256,
                derivative: d@,
            },
            SelfAddressingPrefix::Blake2B256(d) => Material {
                kind: SelfAddressing::Blake2B256,
                derivative: d@,
            },
            SelfAddressingPrefix::Blake2S256(d) => Material {
                kind: SelfAddressing::Blake2S256,
                derivative: d@,
            },
            SelfAddressingPrefix::SHA3_256(d) => Material {
                kind: SelfAddressing::SHA3_256,
                derivative: d@,
            },
            SelfAddressingPrefix::SHA2_256(d) => Material {
                kind: SelfAddressing::SHA2_256,
                derivative: d@,
            },
            SelfAddressingPrefix::Blake3_512(d) => Material {
                kind: SelfAddressing::Blake3_512,
                derivative: d@,
            },
            SelfAddressingPrefix::SHA3_512(d) => Material {
                kind: SelfAddressing::SHA3_512,
                derivative: d@,
            },
            SelfAddressingPrefix::Blake2B512(d) => Material {
                kind: SelfAddressing::Blake2B512,
                derivative: d@,
            },
            SelfAddressingPrefix::SHA2_512(d) => Material {
                kind: SelfAddressing::SHA2_512,
                derivative: d@,
            },
        }
    }
}

impl SelfAddressingPrefix {
    /// The prefix of the given kind with the given derivative.
    pub fn new(kind: SelfAddressing, derivative: Vec<u8>) -> (p: SelfAddressingPrefix)
        ensures
            p@ == (Material { kind, derivative: derivative@ }),
    {
        match kind {
            SelfAddressing::Blake3_256 => SelfAddressingPrefix::Blake3_256(derivative),
            SelfAddressing::Blake2B256 => SelfAddressingPrefix::Blake2B256(derivative),
            SelfAddressing::Blake2S256 => SelfAddressingPrefix::Blake2S256(derivative),
            SelfAddressing::SHA3_256 => SelfAddressingPrefix::SHA3_256(derivative),
            SelfAddressing::SHA2_256 => SelfAddressingPrefix::SHA2_256(derivative),
            SelfAddressing::Blake3_512 => SelfAddressingPrefix::Blake3_512(derivative),
            SelfAddressing::SHA3_512 => SelfAddressingPrefix::SHA3_512(derivative),
            SelfAddressing::Blake2B512 => SelfAddressingPrefix::Blake2B512(derivative),
            SelfAddressing::SHA2_512 => SelfAddressingPrefix::SHA2_512(derivative),
        }
    }

    /// How the prefix was derived.
    pub fn derivation(&self) -> (kind: SelfAddressing)
        ensures
            kind == self@.kind,
    {
        match self {
            SelfAddressingPrefix::Blake3_256(_) => SelfAddressing::Blake3_256,
            SelfAddressingPrefix::Blake2B256(_) => SelfAddressing::Blake2B256,
            SelfAddressingPrefix::Blake2S256(_) => SelfAddressing::Blake2S256,
            SelfAddressingPrefix::SHA3_256(_) => SelfAddressing::SHA3_256,
            SelfAddressingPrefix::SHA2_256(_) => SelfAddressing::SHA2_256,
            SelfAddressingPrefix::Blake3_512(_) => SelfAddressing::Blake3_512,
            SelfAddressingPrefix::SHA3_512(_) => SelfAddressing::SHA3_512,
            SelfAddressingPrefix::Blake2B512(_) => SelfAddressing::Blake2B512,
            SelfAddressingPrefix::SHA2_512(_) => SelfAddressing::SHA2_512,
        }
    }

    /// The derived bytes.
    pub fn derivative(&self) -> (bytes: &Vec<u8>)
        ensures
            bytes@ == self@.derivative,
    {
        match self {
            SelfAddressingPrefix::Blake3_256(d) => d,
            SelfAddressingPrefix::Blake2B256(d) => d,
            SelfAddressingPrefix::Blake2S256(d) => d,
            SelfAddressingPrefix::SHA3_256(d) => d,
            SelfAddressingPrefix::SHA2_256(d) => d,
            SelfAddressingPrefix::Blake3_512(d) => d,
            SelfAddressingPrefix::SHA3_512(d) => d,
            SelfAddressingPrefix::Blake2B512(d) => d,
            SelfAddressingPrefix::SHA2_512(d) => d,
        }
    }

    /// Whether the prefix is short enough to be written as text on this machine.
    pub fn is_encodable(&self) -> (ok: bool)
        ensures
            ok == self@.encodable(),
    {
        fits(self.derivative().as_slice())
    }

    /// The prefix as text: its derivation code, then its derivative in base64.
    ///
    /// The text is made of base64 characters only and reads back as this prefix.
    pub fn to_str(&self) -> (text: String)
        requires
            self@.encodable(),
        ensures
            text@ == self@.text(),
            Material::<SelfAddressing>::parse(text@) == Ok::<Material<SelfAddressing>, Failure>(self@),
            is_base64_text(text@),
    {
        let kind = self.derivation();
        render(&kind, self.derivative())
    }

    /// Reads a prefix from text.
    ///
    /// Fails with `ImproperPrefixType` where the text does not start with a
    /// code of this family, with `Base64DecodingError` where what follows the
    /// code is not base64, and with `DeserializationError` where it is too
    /// long to decode.
    pub fn from_str(s: &str) -> (res: Result<SelfAddressingPrefix, Error>)
        ensures
            outcome(res) == Material::<SelfAddressing>::parse(s@),
    {
        match parse::<SelfAddressing>(s) {
            Ok((kind, derivative)) => Ok(SelfAddressingPrefix::new(kind, derivative)),
            Err(e) => Err(e),
        }
    }

    /// Whether this prefix is the digest of `data` under its own algorithm.
    ///
    /// Fails with `ImproperPrefixType` where the library cannot compute the algorithm.
    pub fn verify_binding(&self, data: &[u8]) -> (res: Result<bool, Error>)
        ensures
            outcome(res) == (match self@.kind.derived(data@) {
                Ok(m) => Ok::<bool, Failure>(m == self@),
                Err(f) => Err(f),
            }),
    {
        match self.derivation().derive(data) {
            Ok(p) => Ok(p == *self),
            Err(e) => Err(e),
        }
    }

}

impl Clone for SelfAddressingPrefix {
    fn clone(&self) -> (res: Self)
        ensures
            res@ == self@,
    {
        SelfAddressingPrefix::new(self.derivation(), self.derivative().clone())
    }
}

impl PartialEq for SelfAddressingPrefix {
    fn eq(&self, other: &Self) -> (r: bool) {
        self.derivation() == other.derivation() && bytes_equal(
            self.derivative(),
            other.derivative(),
        )
    }
}

impl vstd::std_specs::cmp::PartialEqSpecImpl for SelfAddressingPrefix {
    open spec fn obeys_eq_spec() -> bool {
        true
    }

    open spec fn eq_spec(&self, other: &Self) -> bool {
        self@ == other@
    }
}

impl Default for SelfAddressingPrefix {
    fn default() -> (p: Self)
        ensures
            p@ == (Material { kind: SelfAddressing::SHA3_512, derivative: Seq::<u8>::empty() }),
    {
        SelfAddressingPrefix::SHA3_512(Vec::new())
    }
}

} // verus!
