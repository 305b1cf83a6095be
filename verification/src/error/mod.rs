use vstd::prelude::*;
use vstd::string::StringExecFns;

verus! {

/// The kinds of failure that the signature schemes report.
#[derive(Clone, Copy, Debug, PartialEq, Eq, Structural)]
pub enum CryptoFailureKind {
    /// An algorithm was asked for that does not exist.
    NoSuchAlgorithm,
    /// A key or a signature could not be read from its bytes.
    ParseError,
    /// The signing or verifying step itself failed.
    SigningError,
    /// A key could not be generated.
    KeyGenError,
    /// A digest could not be generated.
    DigestGenError,
    /// Any other failure.
    GeneralError,
}

/// A failure reported by a signature scheme, with the scheme's own message.
#[derive(Debug)]
pub enum CryptoFailure {
    NoSuchAlgorithm(String),
    ParseError(String),
    SigningError(String),
    KeyGenError(String),
    DigestGenError(String),
    GeneralError(String),
}

/// A failure of a signature scheme as contracts speak of it.
pub struct CryptoFailureView {
    pub kind: CryptoFailureKind,
    pub message: Seq<char>,
}

impl View for CryptoFailure {
    type V = CryptoFailureView;

    open spec fn view(&self) -> CryptoFailureView {
        match self {
            CryptoFailure::NoSuchAlgorithm(m) => CryptoFailureView {
                kind: CryptoFailureKind::NoSuchAlgorithm,
                message: m@,
            },
            CryptoFailure::ParseError(m) => CryptoFailureView {
                kind: CryptoFailureKind::ParseError,
                message: m@,
            },
            CryptoFailure::SigningError(m) => CryptoFailureView {
                kind: CryptoFailureKind::SigningError,
                message: m@,
            },
            CryptoFailure::KeyGenError(m) => CryptoFailureView {
                kind: CryptoFailureKind::KeyGenError,
                message: m@,
            },
            CryptoFailure::DigestGenError(m) => CryptoFailureView {
                kind: CryptoFailureKind::DigestGenError,
                message: m@,
            },
            CryptoFailure::GeneralError(m) => CryptoFailureView {
                kind: CryptoFailureKind::GeneralError,
                message: m@,
            },
        }
    }
}

impl CryptoFailure {
    /// Which kind of failure this is.
    pub fn kind(&self) -> (kind: CryptoFailureKind)
        ensures
            kind == self@.kind,
    {
        match self {
            CryptoFailure::NoSuchAlgorithm(_) => CryptoFailureKind::NoSuchAlgorithm,
            CryptoFailure::ParseError(_) => CryptoFailureKind::ParseError,
            CryptoFailure::SigningError(_) => CryptoFailureKind::SigningError,
            CryptoFailure::KeyGenError(_) => CryptoFailureKind::KeyGenError,
            CryptoFailure::DigestGenError(_) => CryptoFailureKind::DigestGenError,
            CryptoFailure::GeneralError(_) => CryptoFailureKind::GeneralError,
        }
    }
}

/// Why a text is not base64, as the codec reports it.
#[derive(Clone, Copy, Debug, PartialEq, Eq, Structural)]
pub enum Base64Failure {
    /// A character that does not belong to the alphabet, with its place and its byte.
    InvalidByte(usize, u8),
    /// A length that no encoding has.
    InvalidLength,
    /// A last character whose bits do not end an encoding, with its place and its byte.
    InvalidLastSymbol(usize, u8),
}

/// An error as contracts speak of it: which failure it is, with the wording
/// of the errors that carry one and the failure of a signature scheme or of
/// the base64 codec.
pub enum Failure {
    Serialization(Seq<char>),
    JsonSerialization,
    CborSerialization,
    MsgPackSerialization,
    DfsSerialization,
    IntegerParse,
    Semantic(Seq<char>),
    Crypto(CryptoFailureView),
    Deserialization,
    Base64Decoding(Base64Failure),
    ImproperPrefixType,
}

/// Everything that can go wrong while handling prefixes, events and state.
#[derive(Debug)]
pub enum Error {
    /// A value could not be written in a wire format.
    SerializationError(String),
    /// The JSON encoding failed.
    JSONSerializationError,
    /// The CBOR encoding failed.
    CBORSerializationError,
    /// The MessagePack encoding failed.
    MsgPackSerializationError,
    /// The signing payload could not be rendered.
    DFSSerializationError,
    /// A numeric field is malformed.
    IntegerParseValue,
    /// An event breaks a rule of the identifier's state machine.
    SemanticError(String),
    /// A signature scheme failed; a signature that merely does not match is no error.
    CryptoError(CryptoFailure),
    /// The input is structurally malformed.
    DeserializationError,
    /// Prefix material is not valid base64.
    Base64DecodingError { source: Base64Failure },
    /// A prefix carries a code that does not fit its use.
    ImproperPrefixType,
}

impl View for Error {
    type V = Failure;

    open spec fn view(&self) -> Failure {
        match self {
            Error::SerializationError(m) => Failure::Serialization(m@),
            Error::JSONSerializationError => Failure::JsonSerialization,
            Error::CBORSerializationError => Failure::CborSerialization,
            Error::MsgPackSerializationError => Failure::MsgPackSerialization,
            Error::DFSSerializationError => Failure::DfsSerialization,
            Error::IntegerParseValue => Failure::IntegerParse,
            Error::SemanticError(m) => Failure::Semantic(m@),
            Error::CryptoError(f) => Failure::Crypto(f@),
            Error::DeserializationError => Failure::Deserialization,
            Error::Base64DecodingError { source } => Failure::Base64Decoding(*source),
            Error::ImproperPrefixType => Failure::ImproperPrefixType,
        }
    }
}

/// What a fallible call gave, as contracts speak of it.
pub open spec fn outcome<T: View>(res: Result<T, Error>) -> Result<T::V, Failure> {
    match res {
        Ok(value) => Ok(value@),
        Err(e) => Err(e@),
    }
}

impl Error {
    /// A semantic error with the given message.
    pub fn semantic(message: &str) -> (e: Error)
        ensures
            e matches Error::SemanticError(m) && m@ == message@,
            e@ == Failure::Semantic(message@),
    {
        Error::SemanticError(String::from_str(message))
    }

    /// A serialization error with the given message.
    pub fn serialization(message: &str) -> (e: Error)
        ensures
            e matches Error::SerializationError(m) && m@ == message@,
            e@ == Failure::Serialization(message@),
    {
        Error::SerializationError(String::from_str(message))
    }

    /// The message that describes this error.
    pub fn to_string(&self) -> (text: String)
        ensures
            text@ == self.message(),
    {
        match self {
            Error::SerializationError(m) => {
                let mut text = String::from_str("Error during Serialization: ");
                text.append(m.as_str());
                text
            },
            Error::JSONSerializationError => String::from_str("JSON Serialization error"),
            Error::CBORSerializationError => String::from_str("CBOR Serialization error"),
            Error::MsgPackSerializationError => String::from_str(
                "MessagePack Serialization error",
            ),
            Error::DFSSerializationError => String::from_str("DFS Serialization error"),
            Error::IntegerParseValue => String::from_str("Error parsing numerical value"),
            Error::SemanticError(m) => {
                let mut text = String::from_str("Error while applying event: ");
                text.append(m.as_str());
                text
            },
            Error::CryptoError(_) => String::from_str("validation error"),
            Error::DeserializationError => String::from_str("Deserialization error"),
            Error::Base64DecodingError { .. } => String::from_str("Base64 Decoding error"),
            Error::ImproperPrefixType => String::from_str("Improper Prefix Type"),
        }
    }

    /// The text of `to_string`.
    pub open spec fn message(&self) -> Seq<char> {
        self@.message()
    }
}

impl Failure {
    /// The message that describes the error.
    pub open spec fn message(self) -> Seq<char> {
        match self {
            Failure::Serialization(m) => "Error during Serialization: "@ + m,
            Failure::JsonSerialization => "JSON Serialization error"@,
            Failure::CborSerialization => "CBOR Serialization error"@,
            Failure::MsgPackSerialization => "MessagePack Serialization error"@,
            Failure::DfsSerialization => "DFS Serialization error"@,
            Failure::IntegerParse => "Error parsing numerical value"@,
            Failure::Semantic(m) => "Error while applying event: "@ + m,
            Failure::Crypto(_) => "validation error"@,
            Failure::Deserialization => "Deserialization error"@,
            Failure::Base64Decoding(_) => "Base64 Decoding error"@,
            Failure::ImproperPrefixType => "Improper Prefix Type"@,
        }
    }
}

} // verus!
