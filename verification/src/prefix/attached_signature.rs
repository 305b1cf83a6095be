use crate::derivation::self_signing::SelfSigning;
use crate::error::outcome;
use crate::error::Error;
use crate::error::Failure;
use crate::prefix::Material;
use crate::prefix::SelfSigningPrefix;
use crate::util::base64::decoded;
use crate::util::base64::base64_text;
use crate::util::base64::from_text;
use crate::util::base64::to_text;
use crate::util::base64::is_base64_text;
use crate::util::text::b64_number;
use crate::util::text::b64_number_value;
use crate::util::text::chars_of;
use crate::util::text::lemma_b64_number;
use crate::util::text::read_b64_number;
use crate::util::text::write_b64_number;
use vstd::prelude::*;
use vstd::slice::slice_subrange;
use vstd::string::StrSliceExecFns;
use vstd::string::StringExecFns;

verus! {

/// A signature attached to an event message, with the position of the signing
/// key among the current signers.
#[derive(Debug)]
pub struct AttachedSignaturePrefix {
    pub index: u16,
    pub sig: SelfSigningPrefix,
}

/// An `AttachedSignature` as contracts speak of it: its fields by their views.
pub struct AttachedSignatureView {
    pub index: u16,
    pub sig: Material<SelfSigning>,
}

impl View for AttachedSignaturePrefix {
    type V = AttachedSignatureView;

    open spec fn view(&self) -> AttachedSignatureView {
        AttachedSignatureView { index: self.index, sig: self.sig@ }
    }
}

/// The code that marks an attached signature of the given scheme.
pub open spec fn attached_code(kind: SelfSigning) -> Seq<char> {
    match kind {
        SelfSigning::Ed25519Sha512 => seq!['A'],
        SelfSigning::ECDSAsecp256k1Sha256 => seq!['B'],
        SelfSigning::Ed448 => seq!['0', 'A'],
    }
}

/// The scheme that the code of an attached signature stands for.
pub open spec fn attached_kind(code: Seq<char>) -> Option<SelfSigning> {
    if code.len() == 1 && code[0] == 'A' {
        Some(SelfSigning::Ed25519Sha512)
    } else if code.len() == 1 && code[0] == 'B' {
        Some(SelfSigning::ECDSAsecp256k1Sha256)
    } else if code.len() == 2 && code[0] == '0' && code[1] == 'A' {
        Some(SelfSigning::Ed448)
    } else {
        None
    }
}

/// How many characters the code of an attached signature takes.
pub open spec fn attached_code_len(text: Seq<char>) -> int {
    if text.len() > 0 && text[0] == '0' {
        2
    } else {
        1
    }
}

impl AttachedSignatureView {
    /// The signature as text: the code of its scheme, the index in three
    /// base64 digits, then the signature in base64.
    pub open spec fn text(self) -> Seq<char> {
        attached_code(self.sig.kind) + b64_number(self.index as nat) + base64_text(
            self.sig.derivative,
        )
    }

    /// Whether the signature is short enough to be written as text on this machine.
    pub open spec fn encodable(self) -> bool {
        self.sig.encodable()
    }

    /// Whether the text of the signature is made of base64 characters and
    /// reads back as the signature.
    pub open spec fn readable(self) -> bool {
        &&& is_base64_text(self.text())
        &&& Self::parse(self.text()) == Ok::<AttachedSignatureView, Failure>(self)
    }

    /// The attached signature that a text stands for.
    pub open spec fn parse(text: Seq<char>) -> Result<AttachedSignatureView, Failure> {
        let n = attached_code_len(text);
        if text.len() < n + 3 {
            Err(Failure::ImproperPrefixType)
        } else {
            match attached_kind(text.take(n)) {
                None => Err(Failure::ImproperPrefixType),
                Some(kind) => match b64_number_value(text.subrange(n, n + 3)) {
                    None => Err(Failure::IntegerParse),
                    Some(index) => if index > u16::MAX {
                        Err(Failure::IntegerParse)
                    } else {
                        match decoded(text.skip(n + 3)) {
                            Ok(derivative) => Ok(
                                AttachedSignatureView {
                                    index: index as u16,
                                    sig: Material { kind, derivative },
                                },
                            ),
                            Err(failure) => Err(failure),
                        }
                    },
                },
            }
        }
    }
}

/// The marker that announces `count` attached signatures: `-A`, then the
/// count in three base64 digits.
pub open spec fn sig_count_text(count: nat) -> Seq<char> {
    seq!['-', 'A'] + b64_number(count)
}

/// The count that a marker announces.
pub open spec fn sig_count_value(text: Seq<char>) -> Result<u16, Failure> {
    if text.len() != 5 || text[0] != '-' || text[1] != 'A' {
        Err(Failure::Deserialization)
    } else {
        match b64_number_value(text.skip(2)) {
            None => Err(Failure::IntegerParse),
            Some(count) => if count > u16::MAX {
                Err(Failure::IntegerParse)
            } else {
                Ok(count as u16)
            },
        }
    }
}

/// The marker of a count is made of base64 characters and reads back as the count.
pub proof fn lemma_sig_count(count: u16)
    ensures
        sig_count_value(sig_count_text(count as nat)) == Ok::<u16, Failure>(count),
        is_base64_text(sig_count_text(count as nat)),
{
    lemma_b64_number(count as nat);
    let text = sig_count_text(count as nat);
    assert(text.skip(2) =~= b64_number(count as nat));
    assert(text[0] == '-' && text[1] == 'A');
    assert forall|i: int| 0 <= i < text.len() implies crate::util::base64::is_base64_char(
        #[trigger] text[i],
    ) by {
        if i >= 2 {
            assert(text[i] == b64_number(count as nat)[i - 2]);
        }
    }
}

/// Writes the marker that announces `num` attached signatures.
pub fn get_sig_count(num: u16) -> (text: String)
    ensures
        text@ == sig_count_text(num as nat),
        sig_count_value(text@) == Ok::<u16, Failure>(num),
        is_base64_text(text@),
{
    proof {
        reveal_strlit("-A");
        lemma_b64_number(num as nat);
    }
    let mut text = String::from_str("-A");
    let digits = write_b64_number(num);
    text.append(digits.as_str());
    assert(text@ =~= sig_count_text(num as nat));
    assert(text@.skip(2) =~= b64_number(num as nat));
    text
}

/// Reads the marker that announces the number of attached signatures.
///
/// Fails with `DeserializationError` where the text is not `-A` and three
/// more characters, and with `IntegerParseValue` where those are not base64
/// digits of a number that fits sixteen bits.
pub fn parse_sig_count(s: &str) -> (res: Result<u16, Error>)
    ensures
        outcome(res) == sig_count_value(s@),
{
    let chars = chars_of(s);
    if chars.len() != 5 || chars[0] != '-' || chars[1] != 'A' {
        return Err(Error::DeserializationError);
    }
    assert(chars@.subrange(2, 5) =~= s@.skip(2));
    match read_b64_number(slice_subrange(chars.as_slice(), 2, 5)) {
        Some(count) => Ok(count),
        None => Err(Error::IntegerParseValue),
    }
}

impl AttachedSignaturePrefix {
    /// Whether the signature is short enough to be written as text on this machine.
    pub fn is_encodable(&self) -> (ok: bool)
        ensures
            ok == self@.encodable(),
    {
        self.sig.is_encodable()
    }

    /// The signature as text; it is made of base64 characters only and reads
    /// back as this signature.
    pub fn to_str(&self) -> (text: String)
        requires
            self@.encodable(),
        ensures
            text@ == self@.text(),
            AttachedSignatureView::parse(text@) == Ok::<AttachedSignatureView, Failure>(self@),
            is_base64_text(text@),
    {
        proof {
            reveal_strlit("A");
            reveal_strlit("B");
            reveal_strlit("0A");
            lemma_b64_number(self.index as nat);
        }
        let mut text = match self.sig.derivation() {
            SelfSigning::Ed25519Sha512 => String::from_str("A"),
            SelfSigning::ECDSAsecp256k1Sha256 => String::from_str("B"),
            SelfSigning::Ed448 => String::from_str("0A"),
        };
        let ghost code = text@;
        assert(code =~= attached_code(self@.sig.kind));
        let digits = write_b64_number(self.index);
        text.append(digits.as_str());
        let encoded = to_text(self.sig.derivative().as_slice());
        text.append(encoded.as_str());
        proof {
            let n = code.len() as int;
            assert(text@ =~= self@.text());
            assert(text@[0] == code[0]);
            assert(attached_code_len(text@) == n);
            assert(text@.take(n) =~= code);
            assert(text@.subrange(n, n + 3) =~= digits@);
            assert(text@.skip(n + 3) =~= encoded@);
        }
        text
    }

    /// Reads an attached signature from text.
    ///
    /// Fails with `ImproperPrefixType` where the text does not start with the
    /// code of an attached signature and three more characters, with
    /// `IntegerParseValue` where those are no index, with
    /// `Base64DecodingError` where the rest is not base64, and with
    /// `DeserializationError` where it is too long to decode.
    pub fn from_str(s: &str) -> (res: Result<AttachedSignaturePrefix, Error>)
        ensures
            outcome(res) == AttachedSignatureView::parse(s@),
    {
        let chars = chars_of(s);
        let n: usize = if chars.len() > 0 && chars[0] == '0' {
            2
        } else {
            1
        };
        if chars.len() < n + 3 {
            return Err(Error::ImproperPrefixType);
        }
        let kind = if n == 1 && chars[0] == 'A' {
            SelfSigning::Ed25519Sha512
        } else if n == 1 && chars[0] == 'B' {
            SelfSigning::ECDSAsecp256k1Sha256
        } else if n == 2 && chars[1] == 'A' {
            SelfSigning::Ed448
        } else {
            return Err(Error::ImproperPrefixType);
        };
        assert(chars@.subrange(n as int, n + 3) =~= s@.subrange(n as int, n + 3));
        let index = match read_b64_number(slice_subrange(chars.as_slice(), n, n + 3)) {
            Some(index) => index,
            None => {
                return Err(Error::IntegerParseValue);
            },
        };
        let rest = s.substring_char(n + 3, chars.len());
        assert(rest@ =~= s@.skip(n + 3));
        match from_text(rest) {
            Ok(derivative) => Ok(
                AttachedSignaturePrefix { index, sig: SelfSigningPrefix::new(kind, derivative) },
            ),
            Err(e) => Err(e),
        }
    }
}

impl Clone for AttachedSignaturePrefix {
    fn clone(&self) -> (res: Self)
        ensures
            res@ == self@,
    {
        AttachedSignaturePrefix { index: self.index, sig: self.sig.clone() }
    }
}

} // verus!
