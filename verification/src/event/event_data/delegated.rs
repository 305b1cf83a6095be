use crate::error::outcome;
use crate::error::Error;
use crate::error::Failure;
use crate::event::event_data::inception::InceptionEvent;
use crate::event::event_data::inception::InceptionEventView;
use crate::event::event_data::rotation::RotationEvent;
use crate::event::event_data::rotation::RotationEventView;
use crate::event::reading::delegating_seal_at;
use crate::event::reading::lemma_delegating_entries;
use crate::event::reading::read_delegating_seal_at;
use crate::event::sections::seal::DelegatingEventSeal;
use crate::event::sections::seal::DelegatingEventSealView;
use crate::util::document::record_field;
use crate::util::document::Document;
use crate::util::document::Field;
use crate::util::document::FieldView;
use crate::util::document::Value;
use crate::util::json_laws::normal_field;
use crate::util::sequence::push_item;
use crate::util::sequence::views;
use vstd::prelude::*;

verus! {

/// An inception that a delegator approves: the inception itself, and the
/// seal that names the approving event of the delegator.
#[derive(Debug)]
pub struct DelegatedInceptionEvent {
    pub inception_data: InceptionEvent,
    /// The seal that names the approving event.
    pub seal: DelegatingEventSeal,
}

/// A `DelegatedInceptionEvent` as contracts speak of it: its fields by their views.
pub struct DelegatedInceptionEventView {
    pub inception_data: InceptionEventView,
    pub seal: DelegatingEventSealView,
}

impl View for DelegatedInceptionEvent {
    type V = DelegatedInceptionEventView;

    open spec fn view(&self) -> DelegatedInceptionEventView {
        DelegatedInceptionEventView {
            inception_data: self.inception_data@,
            seal: self.seal@,
        }
    }
}

impl Clone for DelegatedInceptionEvent {
    fn clone(&self) -> (res: Self)
        ensures
            res@ == self@,
    {
        DelegatedInceptionEvent {
            inception_data: self.inception_data.clone(),
            seal: self.seal.clone(),
        }
    }
}

impl DelegatedInceptionEventView {
    /// Whether every prefix is short enough to be written as text on this machine.
    pub open spec fn encodable(self) -> bool {
        &&& self.inception_data.encodable()
        &&& self.seal.encodable()
    }

    /// Whether the text of every prefix reads back as the prefix.
    pub open spec fn readable(self) -> bool {
        &&& self.inception_data.readable()
        &&& self.seal.readable()
    }

    /// The fields under which the delegated inception is written out.
    pub open spec fn fields(self) -> Seq<FieldView> {
        self.inception_data.fields() + seq![
            record_field("seal"@, self.seal.entries()),
        ]
    }

    /// The delegated inception that the fields of a document stand for, from place `k` on.
    pub open spec fn decoded(
        document: Seq<FieldView>,
        k: int,
    ) -> Result<DelegatedInceptionEventView, Failure> {
        match InceptionEventView::decoded(document, k) {
            Err(failure) => Err(failure),
            Ok(inception_data) => match delegating_seal_at(document, k + 6, "seal"@) {
                Err(failure) => Err(failure),
                Ok(seal) => Ok(DelegatedInceptionEventView { inception_data, seal }),
            },
        }
    }

    /// The delegated inception is written out under 7 fields.
    pub proof fn lemma_fields(self)
        ensures
            self.fields().len() == 7,
    {
        self.inception_data.lemma_fields();
    }

    /// A delegated inception whose prefixes read back reads back from its fields.
    pub proof fn lemma_reads_back(self, document: Seq<FieldView>, k: int)
        requires
            self.readable(),
            0 <= k,
            k + 7 <= document.len(),
            forall|j: int| 0 <= j < 7 ==> document[k + j] == normal_field(self.fields()[j]),
        ensures
            Self::decoded(document, k) == Ok::<DelegatedInceptionEventView, Failure>(self),
    {
        self.lemma_fields();
        self.inception_data.lemma_fields();
        assert forall|j: int| 0 <= j < 6 implies document[k + 0 + j] == normal_field(
            self.inception_data.fields()[j],
        ) by {
            assert(self.fields()[0 + j] == self.inception_data.fields()[j]);
            assert(document[k + (0 + j)] == normal_field(self.fields()[0 + j]));
        }
        self.inception_data.lemma_reads_back(document, k + 0);
        assert(document[k + 6] == normal_field(self.fields()[6]));
        assert(self.fields()[6] == record_field("seal"@, self.seal.entries()));
        lemma_delegating_entries(self.seal);
        self.seal.lemma_reads_back(self.seal.entries(), 0);
    }
}

impl DelegatedInceptionEvent {
    /// Whether every prefix is short enough to be written as text on this machine.
    pub fn is_encodable(&self) -> (ok: bool)
        ensures
            ok == self@.encodable(),
    {
        self.inception_data.is_encodable()
            && self.seal.is_encodable()
    }

    /// Appends the fields under which the delegated inception is written out.
    pub fn append_fields(&self, fields: &mut Vec<Field>)
        requires
            self@.encodable(),
        ensures
            views(final(fields)@) == views(old(fields)@) + self@.fields(),
            self@.readable(),
    {
        self.inception_data.append_fields(fields);
        push_item(fields, Field::new("seal", Value::Record(self.seal.to_record())));
        assert(views(fields@) =~= views(old(fields)@) + self@.fields());
    }

    /// Reads the delegated inception from the fields of a document, from place `k` on.
    ///
    /// Fails with `DeserializationError` where a field is missing, misnamed
    /// or of another shape, and with the error of the value that cannot be read.
    pub fn decode(document: &Document, k: usize) -> (res: Result<DelegatedInceptionEvent, Error>)
        requires
            k + 7 <= usize::MAX,
        ensures
            outcome(res) == DelegatedInceptionEventView::decoded(document@, k as int),
    {
        let inception_data = match InceptionEvent::decode(document, k) {
            Ok(value) => value,
            Err(e) => {
                return Err(e);
            },
        };
        let seal = match read_delegating_seal_at(document, k + 6, "seal") {
            Ok(value) => value,
            Err(e) => {
                return Err(e);
            },
        };
        Ok(DelegatedInceptionEvent { inception_data, seal })
    }
}

/// A rotation that a delegator approves: the rotation itself, and the seal
/// that names the approving event of the delegator.
#[derive(Debug)]
pub struct DelegatedRotationEvent {
    pub rotation_data: RotationEvent,
    /// The seal that names the approving event.
    pub seal: DelegatingEventSeal,
}

/// A `DelegatedRotationEvent` as contracts speak of it: its fields by their views.
pub struct DelegatedRotationEventView {
    pub rotation_data: RotationEventView,
    pub seal: DelegatingEventSealView,
}

impl View for DelegatedRotationEvent {
    type V = DelegatedRotationEventView;

    open spec fn view(&self) -> DelegatedRotationEventView {
        DelegatedRotationEventView {
            rotation_data: self.rotation_data@,
            seal: self.seal@,
        }
    }
}

impl Clone for DelegatedRotationEvent {
    fn clone(&self) -> (res: Self)
        ensures
            res@ == self@,
    {
        DelegatedRotationEvent {
            rotation_data: self.rotation_data.clone(),
            seal: self.seal.clone(),
        }
    }
}

impl DelegatedRotationEventView {
    /// Whether every prefix is short enough to be written as text on this machine.
    pub open spec fn encodable(self) -> bool {
        &&& self.rotation_data.encodable()
        &&& self.seal.encodable()
    }

    /// Whether the text of every prefix reads back as the prefix.
    pub open spec fn readable(self) -> bool {
        &&& self.rotation_data.readable()
        &&& self.seal.readable()
    }

    /// The fields under which the delegated rotation is written out.
    pub open spec fn fields(self) -> Seq<FieldView> {
        self.rotation_data.fields() + seq![
            record_field("seal"@, self.seal.entries()),
        ]
    }

    /// The delegated rotation that the fields of a document stand for, from place `k` on.
    pub open spec fn decoded(
        document: Seq<FieldView>,
        k: int,
    ) -> Result<DelegatedRotationEventView, Failure> {
        match RotationEventView::decoded(document, k) {
            Err(failure) => Err(failure),
            Ok(rotation_data) => match delegating_seal_at(document, k + 8, "seal"@) {
                Err(failure) => Err(failure),
                Ok(seal) => Ok(DelegatedRotationEventView { rotation_data, seal }),
            },
        }
    }

    /// The delegated rotation is written out under 9 fields.
    pub proof fn lemma_fields(self)
        ensures
            self.fields().len() == 9,
    {
        self.rotation_data.lemma_fields();
    }

    /// A delegated rotation whose prefixes read back reads back from its fields.
    pub proof fn lemma_reads_back(self, document: Seq<FieldView>, k: int)
        requires
            self.readable(),
            0 <= k,
            k + 9 <= document.len(),
            forall|j: int| 0 <= j < 9 ==> document[k + j] == normal_field(self.fields()[j]),
        ensures
            Self::decoded(document, k) == Ok::<DelegatedRotationEventView, Failure>(self),
    {
        self.lemma_fields();
        self.rotation_data.lemma_fields();
        assert forall|j: int| 0 <= j < 8 implies document[k + 0 + j] == normal_field(
            self.rotation_data.fields()[j],
        ) by {
            assert(self.fields()[0 + j] == self.rotation_data.fields()[j]);
            assert(document[k + (0 + j)] == normal_field(self.fields()[0 + j]));
        }
        self.rotation_data.lemma_reads_back(document, k + 0);
        assert(document[k + 8] == normal_field(self.fields()[8]));
        assert(self.fields()[8] == record_field("seal"@, self.seal.entries()));
        lemma_delegating_entries(self.seal);
        self.seal.lemma_reads_back(self.seal.entries(), 0);
    }
}

impl DelegatedRotationEvent {
    /// Whether every prefix is short enough to be written as text on this machine.
    pub fn is_encodable(&self) -> (ok: bool)
        ensures
            ok == self@.encodable(),
    {
        self.rotation_data.is_encodable()
            && self.seal.is_encodable()
    }

    /// Appends the fields under which the delegated rotation is written out.
    pub fn append_fields(&self, fields: &mut Vec<Field>)
        requires
            self@.encodable(),
        ensures
            views(final(fields)@) == views(old(fields)@) + self@.fields(),
            self@.readable(),
    {
        self.rotation_data.append_fields(fields);
        push_item(fields, Field::new("seal", Value::Record(self.seal.to_record())));
        assert(views(fields@) =~= views(old(fields)@) + self@.fields());
    }

    /// Reads the delegated rotation from the fields of a document, from place `k` on.
    ///
    /// Fails with `DeserializationError` where a field is missing, misnamed
    /// or of another shape, and with the error of the value that cannot be read.
    pub fn decode(document: &Document, k: usize) -> (res: Result<DelegatedRotationEvent, Error>)
        requires
            k + 9 <= usize::MAX,
        ensures
            outcome(res) == DelegatedRotationEventView::decoded(document@, k as int),
    {
        let rotation_data = match RotationEvent::decode(document, k) {
            Ok(value) => value,
            Err(e) => {
                return Err(e);
            },
        };
        let seal = match read_delegating_seal_at(document, k + 8, "seal") {
            Ok(value) => value,
            Err(e) => {
                return Err(e);
            },
        };
        Ok(DelegatedRotationEvent { rotation_data, seal })
    }
}

} // verus!
