use crate::error::outcome;
use crate::error::Error;
use crate::error::Failure;
use crate::event::reading::identifier_at;
use crate::event::reading::read_identifier_at;
use crate::event::event_data::EventData;
use crate::event::event_data::EventDataView;
use crate::event_message::serialized_size;
use crate::event_message::version_text;
use crate::event_message::EventMessage;
use crate::event_message::EventMessageView;
use crate::prefix::AttachedSignaturePrefix;
use crate::prefix::IdentifierPrefix;
use crate::prefix::IdentifierPrefixView;
use crate::util::document::text_field;
use crate::util::document::Document;
use crate::util::document::Field;
use crate::util::document::FieldView;
use crate::util::document::Value;
use crate::util::sequence::push_item;
use crate::util::json_laws::normal_field;
use crate::util::reading::number_at;
use crate::util::reading::read_number_at;
use crate::util::reading::read_text_at;
use crate::util::reading::text_at;
use crate::util::sequence::views;
use crate::util::text::hex_text;
use crate::util::text::lemma_hex_reads_back;
use crate::util::text::write_hex;
use vstd::prelude::*;

pub mod event_data;
pub mod reading;
pub mod sections;

verus! {

/// An entry of the log of an identifier.
#[derive(Debug)]
pub struct Event {
    /// The identifier whose log the event belongs to.
    pub prefix: IdentifierPrefix,
    /// The place of the event in the log, counted from zero.
    pub sn: u64,
    /// What the event does.
    pub event_data: EventData,
}

/// An `Event` as contracts speak of it: its fields by their views.
pub struct EventView {
    pub prefix: IdentifierPrefixView,
    pub sn: u64,
    pub event_data: EventDataView,
}

impl View for Event {
    type V = EventView;

    open spec fn view(&self) -> EventView {
        EventView { prefix: self.prefix@, sn: self.sn, event_data: self.event_data@ }
    }
}

impl Clone for Event {
    fn clone(&self) -> (res: Self)
        ensures
            res@ == self@,
    {
        Event { prefix: self.prefix.clone(), sn: self.sn, event_data: self.event_data.clone() }
    }
}

impl EventView {
    /// Whether every prefix is short enough to be written as text on this machine.
    pub open spec fn encodable(self) -> bool {
        self.prefix.encodable() && self.event_data.encodable()
    }

    /// Whether the text of every prefix reads back as the prefix.
    pub open spec fn readable(self) -> bool {
        self.prefix.readable() && self.event_data.readable()
    }

    /// The event that the fields of a document stand for, from place `k` up
    /// to the last field.
    pub open spec fn decoded(document: Seq<FieldView>, k: int) -> Result<EventView, Failure> {
        match identifier_at(document, k, "pre"@) {
            Err(failure) => Err(failure),
            Ok(prefix) => match number_at(document, k + 1, "sn"@) {
                Err(failure) => Err(failure),
                Ok(sn) => match text_at(document, k + 2, "ilk"@) {
                    Err(failure) => Err(failure),
                    Ok(ilk) => match EventDataView::decoded(document, ilk, k + 3) {
                        Err(failure) => Err(failure),
                        Ok(event_data) => Ok(EventView { prefix, sn, event_data }),
                    },
                },
            },
        }
    }

    /// An event whose prefixes read back reads back from its fields.
    pub proof fn lemma_reads_back(self, document: Seq<FieldView>, k: int)
        requires
            self.readable(),
            0 <= k,
            document.len() == k + self.fields().len(),
            forall|j: int|
                0 <= j < self.fields().len() ==> document[k + j] == normal_field(self.fields()[j]),
        ensures
            Self::decoded(document, k) == Ok::<EventView, Failure>(self),
    {
        let data = self.event_data.fields();
        assert(self.fields().len() == 3 + data.len());
        assert(document[k + 0] == normal_field(self.fields()[0]));
        assert(document[k + 1] == normal_field(self.fields()[1]));
        assert(document[k + 2] == normal_field(self.fields()[2]));
        lemma_hex_reads_back(self.sn as nat);
        assert forall|j: int| 0 <= j < data.len() implies document[k + 3 + j] == normal_field(
            data[j],
        ) by {
            assert(self.fields()[3 + j] == data[j]);
            assert(document[k + (3 + j)] == normal_field(self.fields()[3 + j]));
        }
        self.event_data.lemma_reads_back(document, k + 3);
    }

    /// The fields under which the event is written out: the identifier, the
    /// sequence number in hexadecimal, the name of the kind, then what the
    /// kind holds.
    pub open spec fn fields(self) -> Seq<FieldView> {
        seq![
            text_field("pre"@, self.prefix.text()),
            text_field("sn"@, hex_text(self.sn as nat)),
            text_field("ilk"@, self.event_data.ilk()),
        ] + self.event_data.fields()
    }
}

impl Event {
    /// Whether every prefix is short enough to be written as text on this machine.
    pub fn is_encodable(&self) -> (ok: bool)
        ensures
            ok == self@.encodable(),
    {
        self.prefix.is_encodable() && self.event_data.is_encodable()
    }

    /// The size in bytes of the JSON form of the message of this event,
    /// measured with the size in the version string left at zero.
    pub fn get_serialized_size(&self) -> (res: Result<usize, Error>)
        requires
            self@.encodable(),
        ensures
            res == Ok::<usize, Error>(serialized_size(self@)),
    {
        EventMessage::get_size(self)
    }

    /// The message of this event with the given signatures attached.
    pub fn sign(&self, sigs: Vec<AttachedSignaturePrefix>) -> (res: Result<EventMessage, Error>)
        requires
            self@.encodable(),
        ensures
            res matches Ok(message) && message@ == (EventMessageView {
                version: version_text(serialized_size(self@) as nat),
                event: self@,
                signatures: views(sigs@),
            }),
            serialized_size(self@) < 0x100_0000 ==> res->Ok_0@.well_formed(),
    {
        EventMessage::new(self, sigs)
    }

    /// Reads the event from the fields of a document, from place `k` up to
    /// the last field.
    ///
    /// Fails with `DeserializationError` where a field is missing, misnamed
    /// or of another shape, and with the error of the value that cannot be read.
    pub fn decode(document: &Document, k: usize) -> (res: Result<Event, Error>)
        requires
            k + 3 <= usize::MAX,
        ensures
            outcome(res) == EventView::decoded(document@, k as int),
    {
        let prefix = match read_identifier_at(document, k, "pre") {
            Ok(value) => value,
            Err(e) => {
                return Err(e);
            },
        };
        let sn = match read_number_at(document, k + 1, "sn") {
            Ok(value) => value,
            Err(e) => {
                return Err(e);
            },
        };
        let ilk = match read_text_at(document, k + 2, "ilk") {
            Ok(value) => value,
            Err(e) => {
                return Err(e);
            },
        };
        match EventData::decode(document, ilk, k + 3) {
            Ok(event_data) => Ok(Event { prefix, sn, event_data }),
            Err(e) => Err(e),
        }
    }

    /// Appends the fields under which the event is written out.
    pub fn append_fields(&self, fields: &mut Vec<Field>)
        requires
            self@.encodable(),
        ensures
            views(final(fields)@) == views(old(fields)@) + self@.fields(),
            self@.readable(),
    {
        push_item(fields, Field::new("pre", Value::Text(self.prefix.to_str())));
        push_item(fields, Field::new("sn", Value::Text(write_hex(self.sn))));
        push_item(fields, Field::new("ilk", Value::Text(self.event_data.ilk())));
        self.event_data.append_fields(fields);
        assert(views(fields@) =~= views(old(fields)@) + self@.fields());
    }
}

} // verus!
