use crate::derivation::self_addressing::SelfAddressing;
use crate::error::outcome;
use crate::error::Error;
use crate::error::Failure;
use crate::event::reading::digest_at;
use crate::event::reading::read_digest_at;
use crate::event::reading::read_seals_at;
use crate::event::reading::seals_at;
use crate::event::sections::seal::are_seals_encodable;
use crate::event::sections::seal::lemma_seals_read_back;
use crate::event::sections::seal::seal_records;
use crate::event::sections::seal::seals_encodable;
use crate::event::sections::seal::seals_readable;
use crate::event::sections::seal::write_seal_records;
use crate::event::sections::seal::Seal;
use crate::event::sections::seal::SealView;
use crate::prefix::Material;
use crate::prefix::SelfAddressingPrefix;
use crate::util::document::records_field;
use crate::util::document::text_field;
use crate::util::document::Document;
use crate::util::document::Field;
use crate::util::document::FieldView;
use crate::util::document::Value;
use crate::util::json_laws::normal_field;
use crate::util::sequence::clone_items;
use crate::util::sequence::push_item;
use crate::util::sequence::views;
use vstd::prelude::*;

verus! {

/// The event that anchors seals and leaves the keys as they are.
#[derive(Debug)]
pub struct InteractionEvent {
    /// The digest of the event before this one.
    pub previous_event_hash: SelfAddressingPrefix,
    /// The seals that the event anchors.
    pub data: Vec<Seal>,
}

/// An `InteractionEvent` as contracts speak of it: its fields by their views.
pub struct InteractionEventView {
    pub previous_event_hash: Material<SelfAddressing>,
    pub data: Seq<SealView>,
}

impl View for InteractionEvent {
    type V = InteractionEventView;

    open spec fn view(&self) -> InteractionEventView {
        InteractionEventView {
            previous_event_hash: self.previous_event_hash@,
            data: views(self.data@),
        }
    }
}

impl Clone for InteractionEvent {
    fn clone(&self) -> (res: Self)
        ensures
            res@ == self@,
    {
        InteractionEvent {
            previous_event_hash: self.previous_event_hash.clone(),
            data: clone_items(&self.data),
        }
    }
}

impl InteractionEventView {
    /// Whether every prefix is short enough to be written as text on this machine.
    pub open spec fn encodable(self) -> bool {
        &&& self.previous_event_hash.encodable()
        &&& seals_encodable(self.data)
    }

    /// Whether the text of every prefix reads back as the prefix.
    pub open spec fn readable(self) -> bool {
        &&& self.previous_event_hash.readable()
        &&& seals_readable(self.data)
    }

    /// The fields under which the interaction is written out.
    pub open spec fn fields(self) -> Seq<FieldView> {
        seq![
            text_field("dig"@, self.previous_event_hash.text()),
            records_field("data"@, seal_records(self.data)),
        ]
    }

    /// The interaction that the fields of a document stand for, from place `k` on.
    pub open spec fn decoded(
        document: Seq<FieldView>,
        k: int,
    ) -> Result<InteractionEventView, Failure> {
        match digest_at(document, k, "dig"@) {
            Err(failure) => Err(failure),
            Ok(previous_event_hash) => match seals_at(document, k + 1, "data"@) {
                Err(failure) => Err(failure),
                Ok(data) => Ok(InteractionEventView { previous_event_hash, data }),
            },
        }
    }

    /// The interaction is written out under 2 fields.
    pub proof fn lemma_fields(self)
        ensures
            self.fields().len() == 2,
    {
    }

    /// An interaction whose prefixes read back reads back from its fields.
    pub proof fn lemma_reads_back(self, document: Seq<FieldView>, k: int)
        requires
            self.readable(),
            0 <= k,
            k + 2 <= document.len(),
            forall|j: int| 0 <= j < 2 ==> document[k + j] == normal_field(self.fields()[j]),
        ensures
            Self::decoded(document, k) == Ok::<InteractionEventView, Failure>(self),
    {
        self.lemma_fields();
        assert(document[k + 0] == normal_field(self.fields()[0]));
        assert(self.fields()[0] == text_field("dig"@, self.previous_event_hash.text()));
        assert(document[k + 1] == normal_field(self.fields()[1]));
        assert(self.fields()[1] == records_field("data"@, seal_records(self.data)));
        lemma_seals_read_back(self.data);
        if self.data.len() == 0 {
            assert(self.data =~= Seq::<SealView>::empty());
        }
    }
}

impl InteractionEvent {
    /// Whether every prefix is short enough to be written as text on this machine.
    pub fn is_encodable(&self) -> (ok: bool)
        ensures
            ok == self@.encodable(),
    {
        self.previous_event_hash.is_encodable()
            && are_seals_encodable(&self.data)
    }

    /// Appends the fields under which the interaction is written out.
    pub fn append_fields(&self, fields: &mut Vec<Field>)
        requires
            self@.encodable(),
        ensures
            views(final(fields)@) == views(old(fields)@) + self@.fields(),
            self@.readable(),
    {
        push_item(fields, Field::new("dig", Value::Text(self.previous_event_hash.to_str())));
        push_item(fields, Field::new("data", Value::Records(write_seal_records(&self.data))));
        assert(views(fields@) =~= views(old(fields)@) + self@.fields());
    }

    /// Reads the interaction from the fields of a document, from place `k` on.
    ///
    /// Fails with `DeserializationError` where a field is missing, misnamed
    /// or of another shape, and with the error of the value that cannot be read.
    pub fn decode(document: &Document, k: usize) -> (res: Result<InteractionEvent, Error>)
        requires
            k + 2 <= usize::MAX,
        ensures
            outcome(res) == InteractionEventView::decoded(document@, k as int),
    {
        let previous_event_hash = match read_digest_at(document, k, "dig") {
            Ok(value) => value,
            Err(e) => {
                return Err(e);
            },
        };
        let data = match read_seals_at(document, k + 1, "data") {
            Ok(value) => value,
            Err(e) => {
                return Err(e);
            },
        };
        Ok(InteractionEvent { previous_event_hash, data })
    }
}

} // verus!
