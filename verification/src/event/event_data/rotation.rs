use crate::derivation::self_addressing::SelfAddressing;
use crate::error::outcome;
use crate::error::Error;
use crate::error::Failure;
use crate::event::reading::digest_at;
use crate::event::reading::read_digest_at;
use crate::event::reading::read_seals_at;
use crate::event::reading::seals_at;
use crate::event::sections::KeyConfig;
use crate::event::sections::KeyConfigView;
use crate::event::sections::WitnessConfig;
use crate::event::sections::WitnessConfigView;
use crate::event::sections::seal::are_seals_encodable;
use crate::event::sections::seal::lemma_seals_read_back;
use crate::event::sections::seal::seal_records;
use crate::event::sections::seal::seals_encodable;
use crate::event::sections::seal::seals_readable;
use crate::event::sections::seal::write_seal_records;
use crate::event::sections::seal::Seal;
use crate::event::sections::seal::SealView;
use crate::prefix::Material;
use crate::prefix::SelfAddressingPrefix;
use crate::util::document::records_field;
use crate::util::document::text_field;
use crate::util::document::Document;
use crate::util::document::Field;
use crate::util::document::FieldView;
use crate::util::document::Value;
use crate::util::json_laws::normal_field;
use crate::util::sequence::clone_items;
use crate::util::sequence::push_item;
use crate::util::sequence::views;
use vstd::prelude::*;

verus! {

/// The event that replaces the keys of an identifier by those that the
/// event before had committed to.
#[derive(Debug)]
pub struct RotationEvent {
    /// The digest of the event before this one.
    pub previous_event_hash: SelfAddressingPrefix,
    pub key_config: KeyConfig,
    pub witness_config: WitnessConfig,
    /// The seals that the event anchors.
    pub data: Vec<Seal>,
}

/// A `RotationEvent` as contracts speak of it: its fields by their views.
pub struct RotationEventView {
    pub previous_event_hash: Material<SelfAddressing>,
    pub key_config: KeyConfigView,
    pub witness_config: WitnessConfigView,
    pub data: Seq<SealView>,
}

impl View for RotationEvent {
    type V = RotationEventView;

    open spec fn view(&self) -> RotationEventView {
        RotationEventView {
            previous_event_hash: self.previous_event_hash@,
            key_config: self.key_config@,
            witness_config: self.witness_config@,
            data: views(self.data@),
        }
    }
}

impl Clone for RotationEvent {
    fn clone(&self) -> (res: Self)
        ensures
            res@ == self@,
    {
        RotationEvent {
            previous_event_hash: self.previous_event_hash.clone(),
            key_config: self.key_config.clone(),
            witness_config: self.witness_config.clone(),
            data: clone_items(&self.data),
        }
    }
}

impl RotationEventView {
    /// Whether every prefix is short enough to be written as text on this machine.
    pub open spec fn encodable(self) -> bool {
        &&& self.previous_event_hash.encodable()
        &&& self.key_config.encodable()
        &&& self.witness_config.encodable()
        &&& seals_encodable(self.data)
    }

    /// Whether the text of every prefix reads back as the prefix.
    pub open spec fn readable(self) -> bool {
        &&& self.previous_event_hash.readable()
        &&& self.key_config.readable()
        &&& self.witness_config.readable()
        &&& seals_readable(self.data)
    }

    /// The fields under which the rotation is written out.
    pub open spec fn fields(self) -> Seq<FieldView> {
        seq![
            text_field("dig"@, self.previous_event_hash.text()),
        ] + self.key_config.fields() + self.witness_config.fields() + seq![
            records_field("data"@, seal_records(self.data)),
        ]
    }

    /// The rotation that the fields of a document stand for, from place `k` on.
    pub open spec fn decoded(
        document: Seq<FieldView>,
        k: int,
    ) -> Result<RotationEventView, Failure> {
        match digest_at(document, k, "dig"@) {
            Err(failure) => Err(failure),
            Ok(previous_event_hash) => match KeyConfigView::decoded(document, k + 1) {
                Err(failure) => Err(failure),
                Ok(key_config) => match WitnessConfigView::decoded(document, k + 4) {
                    Err(failure) => Err(failure),
                    Ok(witness_config) => match seals_at(document, k + 7, "data"@) {
                        Err(failure) => Err(failure),
                        Ok(data) => Ok(RotationEventView {
                            previous_event_hash,
                            key_config,
                            witness_config,
                            data,
                        }),
                    },
                },
            },
        }
    }

    /// The rotation is written out under 8 fields.
    pub proof fn lemma_fields(self)
        ensures
            self.fields().len() == 8,
    {
        self.key_config.lemma_fields();
        self.witness_config.lemma_fields();
    }

    /// A rotation whose prefixes read back reads back from its fields.
    pub proof fn lemma_reads_back(self, document: Seq<FieldView>, k: int)
        requires
            self.readable(),
            0 <= k,
            k + 8 <= document.len(),
            forall|j: int| 0 <= j < 8 ==> document[k + j] == normal_field(self.fields()[j]),
        ensures
            Self::decoded(document, k) == Ok::<RotationEventView, Failure>(self),
    {
        self.lemma_fields();
        assert(document[k + 0] == normal_field(self.fields()[0]));
        assert(self.fields()[0] == text_field("dig"@, self.previous_event_hash.text()));
        self.key_config.lemma_fields();
        assert forall|j: int| 0 <= j < 3 implies document[k + 1 + j] == normal_field(
            self.key_config.fields()[j],
        ) by {
            assert(self.fields()[1 + j] == self.key_config.fields()[j]);
            assert(document[k + (1 + j)] == normal_field(self.fields()[1 + j]));
        }
        self.key_config.lemma_reads_back(document, k + 1);
        self.witness_config.lemma_fields();
        assert forall|j: int| 0 <= j < 3 implies document[k + 4 + j] == normal_field(
            self.witness_config.fields()[j],
        ) by {
            assert(self.fields()[4 + j] == self.witness_config.fields()[j]);
            assert(document[k + (4 + j)] == normal_field(self.fields()[4 + j]));
        }
        self.witness_config.lemma_reads_back(document, k + 4);
        assert(document[k + 7] == normal_field(self.fields()[7]));
        assert(self.fields()[7] == records_field("data"@, seal_records(self.data)));
        lemma_seals_read_back(self.data);
        if self.data.len() == 0 {
            assert(self.data =~= Seq::<SealView>::empty());
        }
    }
}

impl RotationEvent {
    /// Whether every prefix is short enough to be written as text on this machine.
    pub fn is_encodable(&self) -> (ok: bool)
        ensures
            ok == self@.encodable(),
    {
        self.previous_event_hash.is_encodable()
            && self.key_config.is_encodable()
            && self.witness_config.is_encodable()
            && are_seals_encodable(&self.data)
    }

    /// Appends the fields under which the rotation is written out.
    pub fn append_fields(&self, fields: &mut Vec<Field>)
        requires
            self@.encodable(),
        ensures
            views(final(fields)@) == views(old(fields)@) + self@.fields(),
            self@.readable(),
    {
        push_item(fields, Field::new("dig", Value::Text(self.previous_event_hash.to_str())));
        self.key_config.append_fields(fields);
        self.witness_config.append_fields(fields);
        push_item(fields, Field::new("data", Value::Records(write_seal_records(&self.data))));
        assert(views(fields@) =~= views(old(fields)@) + self@.fields());
    }

    /// Reads the rotation from the fields of a document, from place `k` on.
    ///
    /// Fails with `DeserializationError` where a field is missing, misnamed
    /// or of another shape, and with the error of the value that cannot be read.
    pub fn decode(document: &Document, k: usize) -> (res: Result<RotationEvent, Error>)
        requires
            k + 8 <= usize::MAX,
        ensures
            outcome(res) == RotationEventView::decoded(document@, k as int),
    {
        let previous_event_hash = match read_digest_at(document, k, "dig") {
            Ok(value) => value,
            Err(e) => {
                return Err(e);
            },
        };
        let key_config = match KeyConfig::decode(document, k + 1) {
            Ok(value) => value,
            Err(e) => {
                return Err(e);
            },
        };
        let witness_config = match WitnessConfig::decode(document, k + 4) {
            Ok(value) => value,
            Err(e) => {
                return Err(e);
            },
        };
        let data = match read_seals_at(document, k + 7, "data") {
            Ok(value) => value,
            Err(e) => {
                return Err(e);
            },
        };
        Ok(RotationEvent { previous_event_hash, key_config, witness_config, data })
    }
}

} // verus!
