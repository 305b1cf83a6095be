use crate::error::outcome;
use crate::error::Error;
use crate::error::Failure;
use crate::event::reading::read_texts_at;
use crate::event::sections::InceptionWitnessConfig;
use crate::event::sections::InceptionWitnessConfigView;
use crate::event::sections::KeyConfig;
use crate::event::sections::KeyConfigView;
use crate::util::document::list_field;
use crate::util::document::Document;
use crate::util::document::Field;
use crate::util::document::FieldView;
use crate::util::document::Value;
use crate::util::json_laws::normal_field;
use crate::util::reading::list_at;
use crate::util::sequence::clone_items;
use crate::util::sequence::push_item;
use crate::util::sequence::views;
use vstd::prelude::*;

verus! {

/// The event that founds an identifier: its first keys, its witnesses and its configuration.
#[derive(Debug)]
pub struct InceptionEvent {
    pub key_config: KeyConfig,
    pub witness_config: InceptionWitnessConfig,
    /// The configuration flags of the identifier.
    pub inception_configuration: Vec<String>,
}

/// An `InceptionEvent` as contracts speak of it: its fields by their views.
pub struct InceptionEventView {
    pub key_config: KeyConfigView,
    pub witness_config: InceptionWitnessConfigView,
    pub inception_configuration: Seq<Seq<char>>,
}

impl View for InceptionEvent {
    type V = InceptionEventView;

    open spec fn view(&self) -> InceptionEventView {
        InceptionEventView {
            key_config: self.key_config@,
            witness_config: self.witness_config@,
            inception_configuration: views(self.inception_configuration@),
        }
    }
}

impl Clone for InceptionEvent {
    fn clone(&self) -> (res: Self)
        ensures
            res@ == self@,
    {
        InceptionEvent {
            key_config: self.key_config.clone(),
            witness_config: self.witness_config.clone(),
            inception_configuration: clone_items(&self.inception_configuration),
        }
    }
}

impl InceptionEventView {
    /// Whether every prefix is short enough to be written as text on this machine.
    pub open spec fn encodable(self) -> bool {
        &&& self.key_config.encodable()
        &&& self.witness_config.encodable()
    }

    /// Whether the text of every prefix reads back as the prefix.
    pub open spec fn readable(self) -> bool {
        &&& self.key_config.readable()
        &&& self.witness_config.readable()
    }

    /// The fields under which the inception is written out.
    pub open spec fn fields(self) -> Seq<FieldView> {
        self.key_config.fields() + self.witness_config.fields() + seq![
            list_field("cnfg"@, self.inception_configuration),
        ]
    }

    /// The inception that the fields of a document stand for, from place `k` on.
    pub open spec fn decoded(
        document: Seq<FieldView>,
        k: int,
    ) -> Result<InceptionEventView, Failure> {
        match KeyConfigView::decoded(document, k) {
            Err(failure) => Err(failure),
            Ok(key_config) => match InceptionWitnessConfigView::decoded(document, k + 3) {
                Err(failure) => Err(failure),
                Ok(witness_config) => match list_at(document, k + 5, "cnfg"@) {
                    Err(failure) => Err(failure),
                    Ok(inception_configuration) => Ok(InceptionEventView {
                        key_config,
                        witness_config,
                        inception_configuration,
                    }),
                },
            },
        }
    }

    /// The inception is written out under 6 fields.
    pub proof fn lemma_fields(self)
        ensures
            self.fields().len() == 6,
    {
        self.key_config.lemma_fields();
        self.witness_config.lemma_fields();
    }

    /// An inception whose prefixes read back reads back from its fields.
    pub proof fn lemma_reads_back(self, document: Seq<FieldView>, k: int)
        requires
            self.readable(),
            0 <= k,
            k + 6 <= document.len(),
            forall|j: int| 0 <= j < 6 ==> document[k + j] == normal_field(self.fields()[j]),
        ensures
            Self::decoded(document, k) == Ok::<InceptionEventView, Failure>(self),
    {
        self.lemma_fields();
        self.key_config.lemma_fields();
        assert forall|j: int| 0 <= j < 3 implies document[k + 0 + j] == normal_field(
            self.key_config.fields()[j],
        ) by {
            assert(self.fields()[0 + j] == self.key_config.fields()[j]);
            assert(document[k + (0 + j)] == normal_field(self.fields()[0 + j]));
        }
        self.key_config.lemma_reads_back(document, k + 0);
        self.witness_config.lemma_fields();
        assert forall|j: int| 0 <= j < 2 implies document[k + 3 + j] == normal_field(
            self.witness_config.fields()[j],
        ) by {
            assert(self.fields()[3 + j] == self.witness_config.fields()[j]);
            assert(document[k + (3 + j)] == normal_field(self.fields()[3 + j]));
        }
        self.witness_config.lemma_reads_back(document, k + 3);
        assert(document[k + 5] == normal_field(self.fields()[5]));
        assert(self.fields()[5] == list_field("cnfg"@, self.inception_configuration));
    }
}

impl InceptionEvent {
    /// Whether every prefix is short enough to be written as text on this machine.
    pub fn is_encodable(&self) -> (ok: bool)
        ensures
            ok == self@.encodable(),
    {
        self.key_config.is_encodable()
            && self.witness_config.is_encodable()
    }

    /// Appends the fields under which the inception is written out.
    pub fn append_fields(&self, fields: &mut Vec<Field>)
        requires
            self@.encodable(),
        ensures
            views(final(fields)@) == views(old(fields)@) + self@.fields(),
            self@.readable(),
    {
        self.key_config.append_fields(fields);
        self.witness_config.append_fields(fields);
        push_item(
            fields,
            Field::new("cnfg", Value::List(clone_items(&self.inception_configuration))),
        );
        assert(views(fields@) =~= views(old(fields)@) + self@.fields());
    }

    /// Reads the inception from the fields of a document, from place `k` on.
    ///
    /// Fails with `DeserializationError` where a field is missing, misnamed
    /// or of another shape, and with the error of the value that cannot be read.
    pub fn decode(document: &Document, k: usize) -> (res: Result<InceptionEvent, Error>)
        requires
            k + 6 <= usize::MAX,
        ensures
            outcome(res) == InceptionEventView::decoded(document@, k as int),
    {
        let key_config = match KeyConfig::decode(document, k) {
            Ok(value) => value,
            Err(e) => {
                return Err(e);
            },
        };
        let witness_config = match InceptionWitnessConfig::decode(document, k + 3) {
            Ok(value) => value,
            Err(e) => {
                return Err(e);
            },
        };
        let inception_configuration = match read_texts_at(document, k + 5, "cnfg") {
            Ok(value) => value,
            Err(e) => {
                return Err(e);
            },
        };
        Ok(InceptionEvent { key_config, witness_config, inception_configuration })
    }
}

} // verus!
