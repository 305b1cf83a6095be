use crate::derivation::basic::Basic;
use crate::derivation::self_addressing::SelfAddressing;
use crate::derivation::self_signing::SelfSigning;
use crate::error::outcome;
use crate::error::Error;
use crate::error::Failure;
use crate::util::base64::decoded;
use crate::util::base64::base64_text;
use crate::util::base64::from_text;
use crate::util::base64::encodable_len;
use crate::util::base64::fits;
use crate::util::base64::to_text;
use crate::util::base64::is_base64_text;
use crate::util::reading::lemma_parsed_all_final;
use crate::util::reading::lemma_parsed_all_reads_back;
use crate::util::reading::parsed_all;
use crate::util::sequence::push_item;
use crate::util::sequence::views;
use crate::util::text::chars_of;
use vstd::prelude::*;
use vstd::slice::slice_subrange;
use vstd::string::StrSliceExecFns;
use vstd::string::StringExecFns;

pub mod attached_signature;
pub mod basic;
pub mod self_addressing;
pub mod self_signing;

pub use attached_signature::AttachedSignaturePrefix;
pub use basic::BasicPrefix;
pub use self_addressing::SelfAddressingPrefix;
pub use self_signing::SelfSigningPrefix;

verus! {

/// What a prefix is made of: the code that says how it was derived, and the derived bytes.
pub struct Material<K> {
    pub kind: K,
    pub derivative: Seq<u8>,
}

/// How many characters the derivation code at the start of a prefix takes.
///
/// A code that starts with `0` has two characters, one that starts with `1`
/// has four, any other has one.
pub open spec fn code_len(text: Seq<char>) -> nat {
    if text.len() == 0 {
        0
    } else if text[0] == '0' {
        2
    } else if text[0] == '1' {
        4
    } else {
        1
    }
}

/// A family of derivation codes: each kind of the family has one code, and no two share one.
pub trait DerivationCode: Sized {
    /// The code of a kind.
    spec fn code(self) -> Seq<char>;

    /// The kind that a code stands for.
    spec fn of_code(code: Seq<char>) -> Option<Self>;

    /// The code of a kind, as text.
    fn to_str(&self) -> (code: String)
        ensures
            code@ == self.code(),
    ;

    /// Reads a code; `None` where the characters are no code of the family.
    fn from_code(code: &[char]) -> (kind: Option<Self>)
        ensures
            kind == Self::of_code(code@),
    ;

    /// Every kind is found again from its code, whose first character tells
    /// its length and whose characters all belong to the base64 alphabet.
    proof fn lemma_code(kind: Self)
        ensures
            Self::of_code(kind.code()) == Some(kind),
            kind.code().len() > 0,
            code_len(kind.code()) == kind.code().len(),
            is_base64_text(kind.code()),
    ;
}

impl<K: DerivationCode> Material<K> {
    /// The prefix as text: the derivation code, then the derivative in base64.
    pub open spec fn text(self) -> Seq<char> {
        self.kind.code() + base64_text(self.derivative)
    }

    /// The prefix that a text stands for.
    pub open spec fn parse(text: Seq<char>) -> Result<Material<K>, Failure> {
        let n = code_len(text) as int;
        if n == 0 || text.len() < n {
            Err(Failure::ImproperPrefixType)
        } else {
            match K::of_code(text.take(n)) {
                None => Err(Failure::ImproperPrefixType),
                Some(kind) => match decoded(text.skip(n)) {
                    Ok(derivative) => Ok(Material { kind, derivative }),
                    Err(failure) => Err(failure),
                },
            }
        }
    }

    /// Whether the derivative is short enough to be written as text on this machine.
    pub open spec fn encodable(self) -> bool {
        encodable_len(self.derivative.len())
    }

    /// Whether the text of the prefix reads back as the prefix.
    pub open spec fn readable(self) -> bool {
        Self::parse(self.text()) == Ok::<Material<K>, Failure>(self)
    }
}

/// Writes a prefix as text.
pub fn render<K: DerivationCode>(kind: &K, derivative: &Vec<u8>) -> (text: String)
    requires
        encodable_len(derivative@.len()),
    ensures
        text@ == (Material { kind: *kind, derivative: derivative@ }).text(),
        Material::<K>::parse(text@) == Ok::<Material<K>, Failure>(
            Material { kind: *kind, derivative: derivative@ },
        ),
        is_base64_text(text@),
{
    let mut text = kind.to_str();
    let encoded = to_text(derivative.as_slice());
    text.append(encoded.as_str());
    proof {
        K::lemma_code(*kind);
        let n = kind.code().len() as int;
        assert(text@.take(n) =~= kind.code());
        assert(text@.skip(n) =~= encoded@);
        assert(text@[0] == kind.code()[0]);
        assert(code_len(text@) == n);
    }
    text
}

/// Reads a prefix from text: its kind and its derivative.
pub fn parse<K: DerivationCode>(s: &str) -> (res: Result<(K, Vec<u8>), Error>)
    ensures
        match res {
            Ok((kind, derivative)) => Material::<K>::parse(s@) == Ok::<Material<K>, Failure>(
                Material { kind, derivative: derivative@ },
            ),
            Err(e) => Material::<K>::parse(s@) == Err::<Material<K>, Failure>(e@),
        },
{
    let chars = chars_of(s);
    let n: usize = if chars.len() == 0 {
        0
    } else if chars[0] == '0' {
        2
    } else if chars[0] == '1' {
        4
    } else {
        1
    };
    if n == 0 || chars.len() < n {
        return Err(Error::ImproperPrefixType);
    }
    match K::from_code(slice_subrange(chars.as_slice(), 0, n)) {
        None => Err(Error::ImproperPrefixType),
        Some(kind) => {
            let rest = s.substring_char(n, chars.len());
            assert(rest@ =~= s@.skip(n as int));
            assert(chars@.subrange(0, n as int) =~= s@.take(n as int));
            match from_text(rest) {
                Ok(derivative) => Ok((kind, derivative)),
                Err(e) => Err(e),
            }
        },
    }
}

/// The codes of the three families are all different.
pub proof fn lemma_families_disjoint()
    ensures
        forall|k: SelfAddressing| Basic::of_code(#[trigger] k.code()) is None,
        forall|k: SelfSigning| Basic::of_code(#[trigger] k.code()) is None,
        forall|k: SelfSigning| SelfAddressing::of_code(#[trigger] k.code()) is None,
{
}

/// The self-certifying identity of an event log or of a key.
#[derive(Debug)]
pub enum IdentifierPrefix {
    /// A public key.
    Basic(BasicPrefix),
    /// A digest of the identified content.
    SelfAddressing(SelfAddressingPrefix),
    /// A signature.
    SelfSigning(SelfSigningPrefix),
}

/// An `IdentifierPrefix` as contracts speak of it: its fields by their views.
pub enum IdentifierPrefixView {
    Basic(Material<Basic>),
    SelfAddressing(Material<SelfAddressing>),
    SelfSigning(Material<SelfSigning>),
}

impl View for IdentifierPrefix {
    type V = IdentifierPrefixView;

    open spec fn view(&self) -> IdentifierPrefixView {
        match self {
            IdentifierPrefix::Basic(p) => IdentifierPrefixView::Basic(p@),
            IdentifierPrefix::SelfAddressing(p) => IdentifierPrefixView::SelfAddressing(p@),
            IdentifierPrefix::SelfSigning(p) => IdentifierPrefixView::SelfSigning(p@),
        }
    }
}

impl IdentifierPrefixView {
    /// The prefix as text.
    pub open spec fn text(self) -> Seq<char> {
        match self {
            IdentifierPrefixView::Basic(m) => m.text(),
            IdentifierPrefixView::SelfAddressing(m) => m.text(),
            IdentifierPrefixView::SelfSigning(m) => m.text(),
        }
    }

    /// Whether the derivative is short enough to be written as text on this machine.
    pub open spec fn encodable(self) -> bool {
        match self {
            IdentifierPrefixView::Basic(m) => m.encodable(),
            IdentifierPrefixView::SelfAddressing(m) => m.encodable(),
            IdentifierPrefixView::SelfSigning(m) => m.encodable(),
        }
    }

    /// Whether the text of the prefix reads back as the prefix.
    pub open spec fn readable(self) -> bool {
        Self::parse(self.text()) == Ok::<IdentifierPrefixView, Failure>(self)
    }

    /// The prefix that a text stands for: the families are tried in turn, and
    /// the first whose code the text starts with decides.
    pub open spec fn parse(text: Seq<char>) -> Result<IdentifierPrefixView, Failure> {
        match Material::<Basic>::parse(text) {
            Ok(m) => Ok(IdentifierPrefixView::Basic(m)),
            Err(Failure::ImproperPrefixType) => match Material::<SelfAddressing>::parse(text) {
                Ok(m) => Ok(IdentifierPrefixView::SelfAddressing(m)),
                Err(Failure::ImproperPrefixType) => match Material::<SelfSigning>::parse(text) {
                    Ok(m) => Ok(IdentifierPrefixView::SelfSigning(m)),
                    Err(f) => Err(f),
                },
                Err(f) => Err(f),
            },
            Err(f) => Err(f),
        }
    }
}

impl IdentifierPrefix {
    /// Whether the prefix is short enough to be written as text on this machine.
    pub fn is_encodable(&self) -> (ok: bool)
        ensures
            ok == self@.encodable(),
    {
        match self {
            IdentifierPrefix::Basic(p) => p.is_encodable(),
            IdentifierPrefix::SelfAddressing(p) => p.is_encodable(),
            IdentifierPrefix::SelfSigning(p) => p.is_encodable(),
        }
    }

    /// The prefix as text: its derivation code, then its derivative in base64.
    ///
    /// The text is made of base64 characters only and reads back as this prefix.
    pub fn to_str(&self) -> (text: String)
        requires
            self@.encodable(),
        ensures
            text@ == self@.text(),
            IdentifierPrefixView::parse(text@) == Ok::<IdentifierPrefixView, Failure>(self@),
            is_base64_text(text@),
    {
        proof {
            lemma_families_disjoint();
        }
        match self {
            IdentifierPrefix::Basic(p) => p.to_str(),
            IdentifierPrefix::SelfAddressing(p) => {
                let text = p.to_str();
                proof {
                    SelfAddressing::lemma_code(p@.kind);
                    let n = p@.kind.code().len() as int;
                    assert(text@.take(n) =~= p@.kind.code());
                    assert(text@[0] == p@.kind.code()[0]);
                }
                text
            },
            IdentifierPrefix::SelfSigning(p) => {
                let text = p.to_str();
                proof {
                    SelfSigning::lemma_code(p@.kind);
                    let n = p@.kind.code().len() as int;
                    assert(text@.take(n) =~= p@.kind.code());
                    assert(text@[0] == p@.kind.code()[0]);
                }
                text
            },
        }
    }

    /// Reads a prefix of any family from text.
    ///
    /// Fails with `ImproperPrefixType` where the text starts with no known
    /// code, with `Base64DecodingError` where what follows the code is not
    /// base64, and with `DeserializationError` where it is too long to decode.
    pub fn from_str(s: &str) -> (res: Result<IdentifierPrefix, Error>)
        ensures
            outcome(res) == IdentifierPrefixView::parse(s@),
    {
        match BasicPrefix::from_str(s) {
            Ok(p) => Ok(IdentifierPrefix::Basic(p)),
            Err(Error::ImproperPrefixType) => match SelfAddressingPrefix::from_str(s) {
                Ok(p) => Ok(IdentifierPrefix::SelfAddressing(p)),
                Err(Error::ImproperPrefixType) => match SelfSigningPrefix::from_str(s) {
                    Ok(p) => Ok(IdentifierPrefix::SelfSigning(p)),
                    Err(e) => Err(e),
                },
                Err(e) => Err(e),
            },
            Err(e) => Err(e),
        }
    }
}

impl Clone for IdentifierPrefix {
    fn clone(&self) -> (res: Self)
        ensures
            res@ == self@,
    {
        match self {
            IdentifierPrefix::Basic(p) => IdentifierPrefix::Basic(p.clone()),
            IdentifierPrefix::SelfAddressing(p) => IdentifierPrefix::SelfAddressing(p.clone()),
            IdentifierPrefix::SelfSigning(p) => IdentifierPrefix::SelfSigning(p.clone()),
        }
    }
}

impl PartialEq for IdentifierPrefix {
    fn eq(&self, other: &Self) -> (r: bool) {
        match (self, other) {
            (IdentifierPrefix::Basic(a), IdentifierPrefix::Basic(b)) => a == b,
            (IdentifierPrefix::SelfAddressing(a), IdentifierPrefix::SelfAddressing(b)) => a == b,
            (IdentifierPrefix::SelfSigning(a), IdentifierPrefix::SelfSigning(b)) => a == b,
            _ => false,
        }
    }
}

impl vstd::std_specs::cmp::PartialEqSpecImpl for IdentifierPrefix {
    open spec fn obeys_eq_spec() -> bool {
        true
    }

    open spec fn eq_spec(&self, other: &Self) -> bool {
        self@ == other@
    }
}

impl Default for IdentifierPrefix {
    fn default() -> (p: Self)
        ensures
            p@ == IdentifierPrefixView::SelfAddressing(
                Material { kind: SelfAddressing::SHA3_512, derivative: Seq::<u8>::empty() },
            ),
    {
        IdentifierPrefix::SelfAddressing(SelfAddressingPrefix::default())
    }
}

/// The texts of a list of public keys, in order.
pub open spec fn basic_texts(keys: Seq<Material<Basic>>) -> Seq<Seq<char>> {
    Seq::new(keys.len(), |i: int| keys[i].text())
}

/// The texts of a list of identifiers, in order.
pub open spec fn identifier_texts(prefixes: Seq<IdentifierPrefixView>) -> Seq<Seq<char>> {
    Seq::new(prefixes.len(), |i: int| prefixes[i].text())
}

/// Whether every public key of a list can be written as text on this machine.
pub open spec fn basics_encodable(keys: Seq<Material<Basic>>) -> bool {
    forall|i: int| 0 <= i < keys.len() ==> (#[trigger] keys[i]).encodable()
}

/// Whether every identifier of a list can be written as text on this machine.
pub open spec fn identifiers_encodable(prefixes: Seq<IdentifierPrefixView>) -> bool {
    forall|i: int| 0 <= i < prefixes.len() ==> (#[trigger] prefixes[i]).encodable()
}

/// Whether the text of every public key of a list reads back as the key.
pub open spec fn basics_readable(keys: Seq<Material<Basic>>) -> bool {
    forall|i: int| 0 <= i < keys.len() ==> (#[trigger] keys[i]).readable()
}

/// Whether the text of every identifier of a list reads back as the identifier.
pub open spec fn identifiers_readable(prefixes: Seq<IdentifierPrefixView>) -> bool {
    forall|i: int| 0 <= i < prefixes.len() ==> (#[trigger] prefixes[i]).readable()
}

/// How the text of a public key is read.
pub open spec fn basic_parser() -> spec_fn(Seq<char>) -> Result<Material<Basic>, Failure> {
    |text: Seq<char>| Material::<Basic>::parse(text)
}

/// How the text of an identifier is read.
pub open spec fn identifier_parser() -> spec_fn(Seq<char>) -> Result<
    IdentifierPrefixView,
    Failure,
> {
    |text: Seq<char>| IdentifierPrefixView::parse(text)
}

/// Writes each public key of a list as text.
pub fn write_basic_texts(keys: &Vec<BasicPrefix>) -> (texts: Vec<String>)
    requires
        basics_encodable(views(keys@)),
    ensures
        views(texts@) == basic_texts(views(keys@)),
        basics_readable(views(keys@)),
{
    let mut texts: Vec<String> = Vec::new();
    let mut i: usize = 0;
    while i < keys.len()
        invariant
            i <= keys.len(),
            basics_encodable(views(keys@)),
            texts@.len() == i,
            forall|j: int| 0 <= j < i ==> (#[trigger] texts@[j])@ == keys@[j]@.text(),
            forall|j: int| 0 <= j < i ==> (#[trigger] views(keys@)[j]).readable(),
        decreases keys.len() - i,
    {
        assert(views(keys@)[i as int].encodable());
        texts.push(keys[i].to_str());
        i = i + 1;
    }
    assert(views(texts@) =~= basic_texts(views(keys@)));
    texts
}

/// Writes each identifier of a list as text.
pub fn write_identifier_texts(prefixes: &Vec<IdentifierPrefix>) -> (texts: Vec<String>)
    requires
        identifiers_encodable(views(prefixes@)),
    ensures
        views(texts@) == identifier_texts(views(prefixes@)),
        identifiers_readable(views(prefixes@)),
{
    let mut texts: Vec<String> = Vec::new();
    let mut i: usize = 0;
    while i < prefixes.len()
        invariant
            i <= prefixes.len(),
            identifiers_encodable(views(prefixes@)),
            texts@.len() == i,
            forall|j: int| 0 <= j < i ==> (#[trigger] texts@[j])@ == prefixes@[j]@.text(),
            forall|j: int| 0 <= j < i ==> (#[trigger] views(prefixes@)[j]).readable(),
        decreases prefixes.len() - i,
    {
        assert(views(prefixes@)[i as int].encodable());
        texts.push(prefixes[i].to_str());
        i = i + 1;
    }
    assert(views(texts@) =~= identifier_texts(views(prefixes@)));
    texts
}

/// Reads each text of a list as a public key; the first text that cannot be read
/// ends the reading with its error.
pub fn read_basic_texts(texts: &Vec<String>) -> (res: Result<Vec<BasicPrefix>, Error>)
    ensures
        match res {
            Ok(items) => parsed_all(views(texts@), basic_parser()) == Ok::<Seq<Material<Basic>>, Failure>(
                views(items@),
            ),
            Err(e) => parsed_all(views(texts@), basic_parser()) == Err::<Seq<Material<Basic>>, Failure>(e@),
        },
{
    let mut items: Vec<BasicPrefix> = Vec::new();
    let ghost all = views(texts@);
    let mut i: usize = 0;
    assert(views(items@) =~= Seq::<Material<Basic>>::empty());
    while i < texts.len()
        invariant
            i <= texts.len(),
            all == views(texts@),
            parsed_all(all.take(i as int), basic_parser()) == Ok::<Seq<Material<Basic>>, Failure>(
                views(items@),
            ),
        decreases texts.len() - i,
    {
        assert(all.take(i + 1).drop_last() =~= all.take(i as int));
        assert(all.take(i + 1).last() == texts@[i as int]@);
        match BasicPrefix::from_str(texts[i].as_str()) {
            Ok(item) => {
                push_item(&mut items, item);
            },
            Err(e) => {
                proof {
                    lemma_parsed_all_final(all, basic_parser(), i + 1);
                }
                return Err(e);
            },
        }
        i = i + 1;
    }
    assert(all.take(all.len() as int) =~= all);
    Ok(items)
}

/// Reads each text of a list as an identifier; the first text that cannot be read
/// ends the reading with its error.
pub fn read_identifier_texts(texts: &Vec<String>) -> (res: Result<Vec<IdentifierPrefix>, Error>)
    ensures
        match res {
            Ok(items) => parsed_all(views(texts@), identifier_parser()) == Ok::<Seq<IdentifierPrefixView>, Failure>(
                views(items@),
            ),
            Err(e) => parsed_all(views(texts@), identifier_parser()) == Err::<Seq<IdentifierPrefixView>, Failure>(e@),
        },
{
    let mut items: Vec<IdentifierPrefix> = Vec::new();
    let ghost all = views(texts@);
    let mut i: usize = 0;
    assert(views(items@) =~= Seq::<IdentifierPrefixView>::empty());
    while i < texts.len()
        invariant
            i <= texts.len(),
            all == views(texts@),
            parsed_all(all.take(i as int), identifier_parser()) == Ok::<Seq<IdentifierPrefixView>, Failure>(
                views(items@),
            ),
        decreases texts.len() - i,
    {
        assert(all.take(i + 1).drop_last() =~= all.take(i as int));
        assert(all.take(i + 1).last() == texts@[i as int]@);
        match IdentifierPrefix::from_str(texts[i].as_str()) {
            Ok(item) => {
                push_item(&mut items, item);
            },
            Err(e) => {
                proof {
                    lemma_parsed_all_final(all, identifier_parser(), i + 1);
                }
                return Err(e);
            },
        }
        i = i + 1;
    }
    assert(all.take(all.len() as int) =~= all);
    Ok(items)
}

/// Public keys whose texts read back read back from the list of their texts.
pub proof fn lemma_basics_read_back(keys: Seq<Material<Basic>>)
    requires
        basics_readable(keys),
    ensures
        parsed_all(basic_texts(keys), basic_parser()) == Ok::<Seq<Material<Basic>>, Failure>(keys),
{
    assert forall|i: int| 0 <= i < keys.len() implies basic_parser()(
        #[trigger] basic_texts(keys)[i],
    ) == Ok::<Material<Basic>, Failure>(keys[i]) by {
        assert(keys[i].readable());
    }
    lemma_parsed_all_reads_back(basic_texts(keys), keys, basic_parser());
}

/// Identifiers whose texts read back read back from the list of their texts.
pub proof fn lemma_identifiers_read_back(prefixes: Seq<IdentifierPrefixView>)
    requires
        identifiers_readable(prefixes),
    ensures
        parsed_all(identifier_texts(prefixes), identifier_parser()) == Ok::<
            Seq<IdentifierPrefixView>,
            Failure,
        >(prefixes),
{
    assert forall|i: int| 0 <= i < prefixes.len() implies identifier_parser()(
        #[trigger] identifier_texts(prefixes)[i],
    ) == Ok::<IdentifierPrefixView, Failure>(prefixes[i]) by {
        assert(prefixes[i].readable());
    }
    lemma_parsed_all_reads_back(identifier_texts(prefixes), prefixes, identifier_parser());
}

/// Whether every public key of a list can be written as text on this machine.
pub fn are_basics_encodable(items: &Vec<BasicPrefix>) -> (ok: bool)
    ensures
        ok == basics_encodable(views(items@)),
{
    let mut i: usize = 0;
    while i < items.len()
        invariant
            i <= items.len(),
            forall|j: int| 0 <= j < i ==> (#[trigger] views(items@)[j]).encodable(),
        decreases items.len() - i,
    {
        if !items[i].is_encodable() {
            assert(!views(items@)[i as int].encodable());
            return false;
        }
        i = i + 1;
    }
    true
}

/// Whether every identifier of a list can be written as text on this machine.
pub fn are_identifiers_encodable(items: &Vec<IdentifierPrefix>) -> (ok: bool)
    ensures
        ok == identifiers_encodable(views(items@)),
{
    let mut i: usize = 0;
    while i < items.len()
        invariant
            i <= items.len(),
            forall|j: int| 0 <= j < i ==> (#[trigger] views(items@)[j]).encodable(),
        decreases items.len() - i,
    {
        if !items[i].is_encodable() {
            assert(!views(items@)[i as int].encodable());
            return false;
        }
        i = i + 1;
    }
    true
}

} // verus!
