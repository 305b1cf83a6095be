use crate::derivation::basic::Basic;
use crate::derivation::self_addressing::SelfAddressing;
use crate::error::outcome;
use crate::error::Error;
use crate::error::Failure;
use crate::event::reading::basics_at;
use crate::event::reading::digest_at;
use crate::event::reading::identifiers_at;
use crate::event::reading::read_basics_at;
use crate::event::reading::read_digest_at;
use crate::event::reading::read_identifiers_at;
use crate::prefix::are_basics_encodable;
use crate::prefix::are_identifiers_encodable;
use crate::prefix::basic_texts;
use crate::prefix::basics_encodable;
use crate::prefix::basics_readable;
use crate::prefix::identifier_texts;
use crate::prefix::identifiers_encodable;
use crate::prefix::identifiers_readable;
use crate::prefix::lemma_basics_read_back;
use crate::prefix::lemma_identifiers_read_back;
use crate::prefix::write_basic_texts;
use crate::prefix::write_identifier_texts;
use crate::prefix::BasicPrefix;
use crate::prefix::IdentifierPrefix;
use crate::prefix::IdentifierPrefixView;
use crate::prefix::Material;
use crate::prefix::SelfAddressingPrefix;
use crate::util::document::list_field;
use crate::util::document::text_field;
use crate::util::document::Document;
use crate::util::document::Field;
use crate::util::document::FieldView;
use crate::util::document::Value;
use crate::util::json_laws::normal_field;
use crate::util::reading::number_at;
use crate::util::reading::read_number_at;
use crate::util::sequence::clone_items;
use crate::util::sequence::push_item;
use crate::util::sequence::views;
use crate::util::text::concat;
use crate::util::text::hex_text;
use crate::util::text::lemma_concat_step;
use crate::util::text::lemma_hex_reads_back;
use crate::util::text::write_hex;
use vstd::prelude::*;

pub mod seal;

verus! {

/// The keys that control an identifier, how many of them must sign, and the
/// digest that commits to the keys of the next rotation.
#[derive(Debug)]
pub struct KeyConfig {
    /// How many signatures an event needs.
    pub threshold: u64,
    /// The public keys that may sign, in the order that signature indices refer to.
    pub public_keys: Vec<BasicPrefix>,
    /// The digest of the keys that the next rotation will reveal.
    pub threshold_key_digest: SelfAddressingPrefix,
}

/// A `KeyConfig` as contracts speak of it: its fields by their views.
pub struct KeyConfigView {
    pub threshold: u64,
    pub public_keys: Seq<Material<Basic>>,
    pub threshold_key_digest: Material<SelfAddressing>,
}

impl View for KeyConfig {
    type V = KeyConfigView;

    open spec fn view(&self) -> KeyConfigView {
        KeyConfigView {
            threshold: self.threshold,
            public_keys: views(self.public_keys@),
            threshold_key_digest: self.threshold_key_digest@,
        }
    }
}

impl Clone for KeyConfig {
    fn clone(&self) -> (res: Self)
        ensures
            res@ == self@,
    {
        KeyConfig {
            threshold: self.threshold,
            public_keys: clone_items(&self.public_keys),
            threshold_key_digest: self.threshold_key_digest.clone(),
        }
    }
}

/// The bytes of a list of public keys, one key after another.
pub open spec fn key_material(keys: Seq<Material<Basic>>) -> Seq<u8> {
    concat(Seq::new(keys.len(), |i: int| keys[i].derivative))
}

impl KeyConfigView {
    /// Whether the threshold can be met: it asks for no more signatures than there are keys.
    pub open spec fn well_formed(self) -> bool {
        self.threshold <= self.public_keys.len()
    }

    /// Whether every prefix is short enough to be written as text on this machine.
    pub open spec fn encodable(self) -> bool {
        &&& basics_encodable(self.public_keys)
        &&& self.threshold_key_digest.encodable()
    }

    /// Whether the text of every prefix reads back as the prefix.
    pub open spec fn readable(self) -> bool {
        &&& basics_readable(self.public_keys)
        &&& self.threshold_key_digest.readable()
    }

    /// The fields under which the key configuration is written out.
    pub open spec fn fields(self) -> Seq<FieldView> {
        seq![
            text_field("sith"@, hex_text(self.threshold as nat)),
            list_field("keys"@, basic_texts(self.public_keys)),
            text_field("nxt"@, self.threshold_key_digest.text()),
        ]
    }

    /// The key configuration that the fields of a document stand for, from place `k` on.
    pub open spec fn decoded(document: Seq<FieldView>, k: int) -> Result<KeyConfigView, Failure> {
        match number_at(document, k, "sith"@) {
            Err(failure) => Err(failure),
            Ok(threshold) => match basics_at(document, k + 1, "keys"@) {
                Err(failure) => Err(failure),
                Ok(public_keys) => match digest_at(document, k + 2, "nxt"@) {
                    Err(failure) => Err(failure),
                    Ok(threshold_key_digest) => Ok(KeyConfigView {
                        threshold,
                        public_keys,
                        threshold_key_digest,
                    }),
                },
            },
        }
    }

    /// The key configuration is written out under 3 fields.
    pub proof fn lemma_fields(self)
        ensures
            self.fields().len() == 3,
    {
    }

    /// A key configuration whose prefixes read back reads back from its fields.
    pub proof fn lemma_reads_back(self, document: Seq<FieldView>, k: int)
        requires
            self.readable(),
            0 <= k,
            k + 3 <= document.len(),
            forall|j: int| 0 <= j < 3 ==> document[k + j] == normal_field(self.fields()[j]),
        ensures
            Self::decoded(document, k) == Ok::<KeyConfigView, Failure>(self),
    {
        self.lemma_fields();
        assert(document[k + 0] == normal_field(self.fields()[0]));
        assert(self.fields()[0] == text_field("sith"@, hex_text(self.threshold as nat)));
        lemma_hex_reads_back(self.threshold as nat);
        assert(document[k + 1] == normal_field(self.fields()[1]));
        assert(self.fields()[1] == list_field("keys"@, basic_texts(self.public_keys)));
        lemma_basics_read_back(self.public_keys);
        assert(document[k + 2] == normal_field(self.fields()[2]));
        assert(self.fields()[2] == text_field("nxt"@, self.threshold_key_digest.text()));
    }
}

impl KeyConfig {
    /// Whether the threshold asks for no more signatures than there are keys.
    pub fn is_well_formed(&self) -> (ok: bool)
        ensures
            ok == self@.well_formed(),
    {
        self.threshold <= self.public_keys.len() as u64
    }

    /// The bytes of the public keys, one key after another: what the digest
    /// that commits to this key set is taken of.
    pub fn key_material(&self) -> (bytes: Vec<u8>)
        ensures
            bytes@ == key_material(self@.public_keys),
    {
        let mut bytes: Vec<u8> = Vec::new();
        let ghost parts = Seq::new(
            self@.public_keys.len(),
            |i: int| self@.public_keys[i].derivative,
        );
        let mut i: usize = 0;
        while i < self.public_keys.len()
            invariant
                i <= self.public_keys.len(),
                parts == Seq::new(
                    self@.public_keys.len(),
                    |i: int| self@.public_keys[i].derivative,
                ),
                bytes@ == concat(parts.take(i as int)),
            decreases self.public_keys.len() - i,
        {
            proof {
                lemma_concat_step(parts, i as int);
            }
            let mut key = self.public_keys[i].derivative().clone();
            bytes.append(&mut key);
            i = i + 1;
        }
        proof {
            assert(parts.take(parts.len() as int) =~= parts);
        }
        bytes
    }

    /// Whether every prefix is short enough to be written as text on this machine.
    pub fn is_encodable(&self) -> (ok: bool)
        ensures
            ok == self@.encodable(),
    {
        are_basics_encodable(&self.public_keys)
            && self.threshold_key_digest.is_encodable()
    }

    /// Appends the fields under which the key configuration is written out.
    pub fn append_fields(&self, fields: &mut Vec<Field>)
        requires
            self@.encodable(),
        ensures
            views(final(fields)@) == views(old(fields)@) + self@.fields(),
            self@.readable(),
    {
        push_item(fields, Field::new("sith", Value::Text(write_hex(self.threshold))));
        push_item(fields, Field::new("keys", Value::List(write_basic_texts(&self.public_keys))));
        push_item(fields, Field::new("nxt", Value::Text(self.threshold_key_digest.to_str())));
        assert(views(fields@) =~= views(old(fields)@) + self@.fields());
    }

    /// Reads the key configuration from the fields of a document, from place `k` on.
    ///
    /// Fails with `DeserializationError` where a field is missing, misnamed
    /// or of another shape, and with the error of the value that cannot be read.
    pub fn decode(document: &Document, k: usize) -> (res: Result<KeyConfig, Error>)
        requires
            k + 3 <= usize::MAX,
        ensures
            outcome(res) == KeyConfigView::decoded(document@, k as int),
    {
        let threshold = match read_number_at(document, k, "sith") {
            Ok(value) => value,
            Err(e) => {
                return Err(e);
            },
        };
        let public_keys = match read_basics_at(document, k + 1, "keys") {
            Ok(value) => value,
            Err(e) => {
                return Err(e);
            },
        };
        let threshold_key_digest = match read_digest_at(document, k + 2, "nxt") {
            Ok(value) => value,
            Err(e) => {
                return Err(e);
            },
        };
        Ok(KeyConfig { threshold, public_keys, threshold_key_digest })
    }
}

/// The witnesses that an inception names, and how many of them must confirm.
#[derive(Debug)]
pub struct InceptionWitnessConfig {
    /// How many witnesses must confirm an event.
    pub tally: u64,
    /// The witnesses of the identifier.
    pub initial_witnesses: Vec<IdentifierPrefix>,
}

/// An `InceptionWitnessConfig` as contracts speak of it: its fields by their views.
pub struct InceptionWitnessConfigView {
    pub tally: u64,
    pub initial_witnesses: Seq<IdentifierPrefixView>,
}

impl View for InceptionWitnessConfig {
    type V = InceptionWitnessConfigView;

    open spec fn view(&self) -> InceptionWitnessConfigView {
        InceptionWitnessConfigView {
            tally: self.tally,
            initial_witnesses: views(self.initial_witnesses@),
        }
    }
}

impl Clone for InceptionWitnessConfig {
    fn clone(&self) -> (res: Self)
        ensures
            res@ == self@,
    {
        InceptionWitnessConfig {
            tally: self.tally,
            initial_witnesses: clone_items(&self.initial_witnesses),
        }
    }
}

impl Default for InceptionWitnessConfig {
    fn default() -> (config: Self)
        ensures
            config@ == (InceptionWitnessConfigView { tally: 0, initial_witnesses: Seq::empty() }),
    {
        let config = InceptionWitnessConfig { tally: 0, initial_witnesses: Vec::new() };
        assert(config@.initial_witnesses =~= Seq::empty());
        config
    }
}

impl InceptionWitnessConfigView {
    /// Whether every prefix is short enough to be written as text on this machine.
    pub open spec fn encodable(self) -> bool {
        &&& identifiers_encodable(self.initial_witnesses)
    }

    /// Whether the text of every prefix reads back as the prefix.
    pub open spec fn readable(self) -> bool {
        &&& identifiers_readable(self.initial_witnesses)
    }

    /// The fields under which the witness configuration is written out.
    pub open spec fn fields(self) -> Seq<FieldView> {
        seq![
            text_field("toad"@, hex_text(self.tally as nat)),
            list_field("wits"@, identifier_texts(self.initial_witnesses)),
        ]
    }

    /// The witness configuration that the fields of a document stand for, from place `k` on.
    pub open spec fn decoded(
        document: Seq<FieldView>,
        k: int,
    ) -> Result<InceptionWitnessConfigView, Failure> {
        match number_at(document, k, "toad"@) {
            Err(failure) => Err(failure),
            Ok(tally) => match identifiers_at(document, k + 1, "wits"@) {
                Err(failure) => Err(failure),
                Ok(initial_witnesses) => Ok(InceptionWitnessConfigView {
                    tally,
                    initial_witnesses,
                }),
            },
        }
    }

    /// The witness configuration is written out under 2 fields.
    pub proof fn lemma_fields(self)
        ensures
            self.fields().len() == 2,
    {
    }

    /// A witness configuration whose prefixes read back reads back from its fields.
    pub proof fn lemma_reads_back(self, document: Seq<FieldView>, k: int)
        requires
            self.readable(),
            0 <= k,
            k + 2 <= document.len(),
            forall|j: int| 0 <= j < 2 ==> document[k + j] == normal_field(self.fields()[j]),
        ensures
            Self::decoded(document, k) == Ok::<InceptionWitnessConfigView, Failure>(self),
    {
        self.lemma_fields();
        assert(document[k + 0] == normal_field(self.fields()[0]));
        assert(self.fields()[0] == text_field("toad"@, hex_text(self.tally as nat)));
        lemma_hex_reads_back(self.tally as nat);
        assert(document[k + 1] == normal_field(self.fields()[1]));
        assert(self.fields()[1] == list_field("wits"@, identifier_texts(self.initial_witnesses)));
        lemma_identifiers_read_back(self.initial_witnesses);
    }
}

impl InceptionWitnessConfig {
    /// Whether every prefix is short enough to be written as text on this machine.
    pub fn is_encodable(&self) -> (ok: bool)
        ensures
            ok == self@.encodable(),
    {
        are_identifiers_encodable(&self.initial_witnesses)
    }

    /// Appends the fields under which the witness configuration is written out.
    pub fn append_fields(&self, fields: &mut Vec<Field>)
        requires
            self@.encodable(),
        ensures
            views(final(fields)@) == views(old(fields)@) + self@.fields(),
            self@.readable(),
    {
        push_item(fields, Field::new("toad", Value::Text(write_hex(self.tally))));
        push_item(
            fields,
            Field::new("wits", Value::List(write_identifier_texts(&self.initial_witnesses))),
        );
        assert(views(fields@) =~= views(old(fields)@) + self@.fields());
    }

    /// Reads the witness configuration from the fields of a document, from place `k` on.
    ///
    /// Fails with `DeserializationError` where a field is missing, misnamed
    /// or of another shape, and with the error of the value that cannot be read.
    pub fn decode(document: &Document, k: usize) -> (res: Result<InceptionWitnessConfig, Error>)
        requires
            k + 2 <= usize::MAX,
        ensures
            outcome(res) == InceptionWitnessConfigView::decoded(document@, k as int),
    {
        let tally = match read_number_at(document, k, "toad") {
            Ok(value) => value,
            Err(e) => {
                return Err(e);
            },
        };
        let initial_witnesses = match read_identifiers_at(document, k + 1, "wits") {
            Ok(value) => value,
            Err(e) => {
                return Err(e);
            },
        };
        Ok(InceptionWitnessConfig { tally, initial_witnesses })
    }
}

/// The changes that a rotation makes to the witnesses.
#[derive(Debug)]
pub struct WitnessConfig {
    /// How many witnesses must confirm an event.
    pub tally: u64,
    /// The witnesses that leave.
    pub prune: Vec<IdentifierPrefix>,
    /// The witnesses that join.
    pub graft: Vec<IdentifierPrefix>,
}

/// A `WitnessConfig` as contracts speak of it: its fields by their views.
pub struct WitnessConfigView {
    pub tally: u64,
    pub prune: Seq<IdentifierPrefixView>,
    pub graft: Seq<IdentifierPrefixView>,
}

impl View for WitnessConfig {
    type V = WitnessConfigView;

    open spec fn view(&self) -> WitnessConfigView {
        WitnessConfigView {
            tally: self.tally,
            prune: views(self.prune@),
            graft: views(self.graft@),
        }
    }
}

impl Clone for WitnessConfig {
    fn clone(&self) -> (res: Self)
        ensures
            res@ == self@,
    {
        WitnessConfig {
            tally: self.tally,
            prune: clone_items(&self.prune),
            graft: clone_items(&self.graft),
        }
    }
}

impl Default for WitnessConfig {
    fn default() -> (config: Self)
        ensures
            config@ == (WitnessConfigView { tally: 0, prune: Seq::empty(), graft: Seq::empty() }),
    {
        let config = WitnessConfig { tally: 0, prune: Vec::new(), graft: Vec::new() };
        assert(config@.prune =~= Seq::empty());
        assert(config@.graft =~= Seq::empty());
        config
    }
}

impl WitnessConfigView {
    /// Whether every prefix is short enough to be written as text on this machine.
    pub open spec fn encodable(self) -> bool {
        &&& identifiers_encodable(self.prune)
        &&& identifiers_encodable(self.graft)
    }

    /// Whether the text of every prefix reads back as the prefix.
    pub open spec fn readable(self) -> bool {
        &&& identifiers_readable(self.prune)
        &&& identifiers_readable(self.graft)
    }

    /// The fields under which the witness configuration is written out.
    pub open spec fn fields(self) -> Seq<FieldView> {
        seq![
            text_field("toad"@, hex_text(self.tally as nat)),
            list_field("cuts"@, identifier_texts(self.prune)),
            list_field("adds"@, identifier_texts(self.graft)),
        ]
    }

    /// The witness configuration that the fields of a document stand for, from place `k` on.
    pub open spec fn decoded(
        document: Seq<FieldView>,
        k: int,
    ) -> Result<WitnessConfigView, Failure> {
        match number_at(document, k, "toad"@) {
            Err(failure) => Err(failure),
            Ok(tally) => match identifiers_at(document, k + 1, "cuts"@) {
                Err(failure) => Err(failure),
                Ok(prune) => match identifiers_at(document, k + 2, "adds"@) {
                    Err(failure) => Err(failure),
                    Ok(graft) => Ok(WitnessConfigView { tally, prune, graft }),
                },
            },
        }
    }

    /// The witness configuration is written out under 3 fields.
    pub proof fn lemma_fields(self)
        ensures
            self.fields().len() == 3,
    {
    }

    /// A witness configuration whose prefixes read back reads back from its fields.
    pub proof fn lemma_reads_back(self, document: Seq<FieldView>, k: int)
        requires
            self.readable(),
            0 <= k,
            k + 3 <= document.len(),
            forall|j: int| 0 <= j < 3 ==> document[k + j] == normal_field(self.fields()[j]),
        ensures
            Self::decoded(document, k) == Ok::<WitnessConfigView, Failure>(self),
    {
        self.lemma_fields();
        assert(document[k + 0] == normal_field(self.fields()[0]));
        assert(self.fields()[0] == text_field("toad"@, hex_text(self.tally as nat)));
        lemma_hex_reads_back(self.tally as nat);
        assert(document[k + 1] == normal_field(self.fields()[1]));
        assert(self.fields()[1] == list_field("cuts"@, identifier_texts(self.prune)));
        lemma_identifiers_read_back(self.prune);
        assert(document[k + 2] == normal_field(self.fields()[2]));
        assert(self.fields()[2] == list_field("adds"@, identifier_texts(self.graft)));
        lemma_identifiers_read_back(self.graft);
    }
}

impl WitnessConfig {
    /// Whether every prefix is short enough to be written as text on this machine.
    pub fn is_encodable(&self) -> (ok: bool)
        ensures
            ok == self@.encodable(),
    {
        are_identifiers_encodable(&self.prune)
            && are_identifiers_encodable(&self.graft)
    }

    /// Appends the fields under which the witness configuration is written out.
    pub fn append_fields(&self, fields: &mut Vec<Field>)
        requires
            self@.encodable(),
        ensures
            views(final(fields)@) == views(old(fields)@) + self@.fields(),
            self@.readable(),
    {
        push_item(fields, Field::new("toad", Value::Text(write_hex(self.tally))));
        push_item(fields, Field::new("cuts", Value::List(write_identifier_texts(&self.prune))));
        push_item(fields, Field::new("adds", Value::List(write_identifier_texts(&self.graft))));
        assert(views(fields@) =~= views(old(fields)@) + self@.fields());
    }

    /// Reads the witness configuration from the fields of a document, from place `k` on.
    ///
    /// Fails with `DeserializationError` where a field is missing, misnamed
    /// or of another shape, and with the error of the value that cannot be read.
    pub fn decode(document: &Document, k: usize) -> (res: Result<WitnessConfig, Error>)
        requires
            k + 3 <= usize::MAX,
        ensures
            outcome(res) == WitnessConfigView::decoded(document@, k as int),
    {
        let tally = match read_number_at(document, k, "toad") {
            Ok(value) => value,
            Err(e) => {
                return Err(e);
            },
        };
        let prune = match read_identifiers_at(document, k + 1, "cuts") {
            Ok(value) => value,
            Err(e) => {
                return Err(e);
            },
        };
        let graft = match read_identifiers_at(document, k + 2, "adds") {
            Ok(value) => value,
            Err(e) => {
                return Err(e);
            },
        };
        Ok(WitnessConfig { tally, prune, graft })
    }
}

} // verus!
