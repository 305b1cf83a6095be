use crate::event::event_data::delegated::DelegatedInceptionEvent;
use crate::event::event_data::delegated::DelegatedInceptionEventView;
use crate::event::event_data::delegated::DelegatedRotationEvent;
use crate::event::event_data::delegated::DelegatedRotationEventView;
use crate::event::event_data::inception::InceptionEvent;
use crate::event::event_data::inception::InceptionEventView;
use crate::event::event_data::interaction::InteractionEvent;
use crate::event::event_data::interaction::InteractionEventView;
use crate::event::event_data::rotation::RotationEvent;
use crate::event::event_data::rotation::RotationEventView;
use crate::error::outcome;
use crate::error::Error;
use crate::error::Failure;
use crate::util::document::Document;
use crate::util::document::Field;
use crate::util::document::FieldView;
use crate::util::json_laws::normal_field;
use crate::util::sequence::views;
use vstd::prelude::*;
use vstd::string::StringExecFns;

pub mod delegated;
pub mod inception;
pub mod interaction;
pub mod rotation;

verus! {

/// What an event does, by its kind.
#[derive(Debug)]
pub enum EventData {
    /// Inception.
    Icp(InceptionEvent),
    /// Rotation.
    Rot(RotationEvent),
    /// Interaction.
    Ixn(InteractionEvent),
    /// Delegated inception.
    Dip(DelegatedInceptionEvent),
    /// Delegated rotation.
    Drt(DelegatedRotationEvent),
}

/// An `EventData` as contracts speak of it: its fields by their views.
pub enum EventDataView {
    Icp(InceptionEventView),
    Rot(RotationEventView),
    Ixn(InteractionEventView),
    Dip(DelegatedInceptionEventView),
    Drt(DelegatedRotationEventView),
}

impl View for EventData {
    type V = EventDataView;

    open spec fn view(&self) -> EventDataView {
        match self {
            EventData::Icp(e) => EventDataView::Icp(e@),
            EventData::Rot(e) => EventDataView::Rot(e@),
            EventData::Ixn(e) => EventDataView::Ixn(e@),
            EventData::Dip(e) => EventDataView::Dip(e@),
            EventData::Drt(e) => EventDataView::Drt(e@),
        }
    }
}

impl Clone for EventData {
    fn clone(&self) -> (res: Self)
        ensures
            res@ == self@,
    {
        match self {
            EventData::Icp(e) => EventData::Icp(e.clone()),
            EventData::Rot(e) => EventData::Rot(e.clone()),
            EventData::Ixn(e) => EventData::Ixn(e.clone()),
            EventData::Dip(e) => EventData::Dip(e.clone()),
            EventData::Drt(e) => EventData::Drt(e.clone()),
        }
    }
}

impl EventDataView {
    /// Whether every prefix is short enough to be written as text on this machine.
    pub open spec fn encodable(self) -> bool {
        match self {
            EventDataView::Icp(e) => e.encodable(),
            EventDataView::Rot(e) => e.encodable(),
            EventDataView::Ixn(e) => e.encodable(),
            EventDataView::Dip(e) => e.encodable(),
            EventDataView::Drt(e) => e.encodable(),
        }
    }

    /// Whether the text of every prefix reads back as the prefix.
    pub open spec fn readable(self) -> bool {
        match self {
            EventDataView::Icp(e) => e.readable(),
            EventDataView::Rot(e) => e.readable(),
            EventDataView::Ixn(e) => e.readable(),
            EventDataView::Dip(e) => e.readable(),
            EventDataView::Drt(e) => e.readable(),
        }
    }

    /// Whether the event founds an identifier.
    pub open spec fn is_inception(self) -> bool {
        self is Icp || self is Dip
    }

    /// The name of the kind of event.
    pub open spec fn ilk(self) -> Seq<char> {
        match self {
            EventDataView::Icp(_) => "icp"@,
            EventDataView::Rot(_) => "rot"@,
            EventDataView::Ixn(_) => "ixn"@,
            EventDataView::Dip(_) => "dip"@,
            EventDataView::Drt(_) => "drt"@,
        }
    }

    /// The fields under which the event data is written out, after the name of its kind.
    pub open spec fn fields(self) -> Seq<FieldView> {
        match self {
            EventDataView::Icp(e) => e.fields(),
            EventDataView::Rot(e) => e.fields(),
            EventDataView::Ixn(e) => e.fields(),
            EventDataView::Dip(e) => e.fields(),
            EventDataView::Drt(e) => e.fields(),
        }
    }
}

impl EventDataView {
    /// The event data of the kind named `ilk` that the fields of a document
    /// stand for, from place `k` up to the last field.
    pub open spec fn decoded(document: Seq<FieldView>, ilk: Seq<char>, k: int) -> Result<
        EventDataView,
        Failure,
    > {
        if ilk == "icp"@ {
            if document.len() != k + 6 {
                Err(Failure::Deserialization)
            } else {
                match InceptionEventView::decoded(document, k) {
                    Ok(e) => Ok(EventDataView::Icp(e)),
                    Err(failure) => Err(failure),
                }
            }
        } else if ilk == "rot"@ {
            if document.len() != k + 8 {
                Err(Failure::Deserialization)
            } else {
                match RotationEventView::decoded(document, k) {
                    Ok(e) => Ok(EventDataView::Rot(e)),
                    Err(failure) => Err(failure),
                }
            }
        } else if ilk == "ixn"@ {
            if document.len() != k + 2 {
                Err(Failure::Deserialization)
            } else {
                match InteractionEventView::decoded(document, k) {
                    Ok(e) => Ok(EventDataView::Ixn(e)),
                    Err(failure) => Err(failure),
                }
            }
        } else if ilk == "dip"@ {
            if document.len() != k + 7 {
                Err(Failure::Deserialization)
            } else {
                match DelegatedInceptionEventView::decoded(document, k) {
                    Ok(e) => Ok(EventDataView::Dip(e)),
                    Err(failure) => Err(failure),
                }
            }
        } else if ilk == "drt"@ {
            if document.len() != k + 9 {
                Err(Failure::Deserialization)
            } else {
                match DelegatedRotationEventView::decoded(document, k) {
                    Ok(e) => Ok(EventDataView::Drt(e)),
                    Err(failure) => Err(failure),
                }
            }
        } else {
            Err(Failure::Deserialization)
        }
    }

    /// The names of the kinds of event are all different.
    pub proof fn lemma_ilks_differ()
        ensures
            "icp"@ != "rot"@,
            "icp"@ != "ixn"@,
            "icp"@ != "dip"@,
            "icp"@ != "drt"@,
            "rot"@ != "ixn"@,
            "rot"@ != "dip"@,
            "rot"@ != "drt"@,
            "ixn"@ != "dip"@,
            "ixn"@ != "drt"@,
            "dip"@ != "drt"@,
    {
        reveal_strlit("icp");
        reveal_strlit("rot");
        reveal_strlit("ixn");
        reveal_strlit("dip");
        reveal_strlit("drt");
        assert("icp"@[0] == 'i' && "icp"@[1] == 'c');
        assert("rot"@[0] == 'r');
        assert("ixn"@[0] == 'i' && "ixn"@[1] == 'x');
        assert("dip"@[0] == 'd' && "dip"@[1] == 'i');
        assert("drt"@[0] == 'd' && "drt"@[1] == 'r');
    }

    /// Event data whose prefixes read back reads back from its fields.
    pub proof fn lemma_reads_back(self, document: Seq<FieldView>, k: int)
        requires
            self.readable(),
            0 <= k,
            document.len() == k + self.fields().len(),
            forall|j: int|
                0 <= j < self.fields().len() ==> document[k + j] == normal_field(self.fields()[j]),
        ensures
            Self::decoded(document, self.ilk(), k) == Ok::<EventDataView, Failure>(self),
    {
        Self::lemma_ilks_differ();
        match self {
            EventDataView::Icp(e) => {
                e.lemma_fields();
                e.lemma_reads_back(document, k);
            },
            EventDataView::Rot(e) => {
                e.lemma_fields();
                e.lemma_reads_back(document, k);
            },
            EventDataView::Ixn(e) => {
                e.lemma_fields();
                e.lemma_reads_back(document, k);
            },
            EventDataView::Dip(e) => {
                e.lemma_fields();
                e.lemma_reads_back(document, k);
            },
            EventDataView::Drt(e) => {
                e.lemma_fields();
                e.lemma_reads_back(document, k);
            },
        }
    }
}

impl EventData {
    /// Reads the event data of the kind named `ilk` from the fields of a
    /// document, from place `k` up to the last field.
    ///
    /// Fails with `DeserializationError` where `ilk` names no kind of event
    /// or the document does not hold the fields of that kind, and with the
    /// error of the value that cannot be read.
    pub fn decode(document: &Document, ilk: &String, k: usize) -> (res: Result<EventData, Error>)
        ensures
            outcome(res) == EventDataView::decoded(document@, ilk@, k as int),
    {
        let n = document.fields.len();
        if *ilk == String::from_str("icp") {
            if n < k || n - k != 6 {
                return Err(Error::DeserializationError);
            }
            match InceptionEvent::decode(document, k) {
                Ok(e) => Ok(EventData::Icp(e)),
                Err(e) => Err(e),
            }
        } else if *ilk == String::from_str("rot") {
            if n < k || n - k != 8 {
                return Err(Error::DeserializationError);
            }
            match RotationEvent::decode(document, k) {
                Ok(e) => Ok(EventData::Rot(e)),
                Err(e) => Err(e),
            }
        } else if *ilk == String::from_str("ixn") {
            if n < k || n - k != 2 {
                return Err(Error::DeserializationError);
            }
            match InteractionEvent::decode(document, k) {
                Ok(e) => Ok(EventData::Ixn(e)),
                Err(e) => Err(e),
            }
        } else if *ilk == String::from_str("dip") {
            if n < k || n - k != 7 {
                return Err(Error::DeserializationError);
            }
            match DelegatedInceptionEvent::decode(document, k) {
                Ok(e) => Ok(EventData::Dip(e)),
                Err(e) => Err(e),
            }
        } else if *ilk == String::from_str("drt") {
            if n < k || n - k != 9 {
                return Err(Error::DeserializationError);
            }
            match DelegatedRotationEvent::decode(document, k) {
                Ok(e) => Ok(EventData::Drt(e)),
                Err(e) => Err(e),
            }
        } else {
            Err(Error::DeserializationError)
        }
    }

    /// Whether every prefix is short enough to be written as text on this machine.
    pub fn is_encodable(&self) -> (ok: bool)
        ensures
            ok == self@.encodable(),
    {
        match self {
            EventData::Icp(e) => e.is_encodable(),
            EventData::Rot(e) => e.is_encodable(),
            EventData::Ixn(e) => e.is_encodable(),
            EventData::Dip(e) => e.is_encodable(),
            EventData::Drt(e) => e.is_encodable(),
        }
    }

    /// The name of the kind of event.
    pub fn ilk(&self) -> (name: String)
        ensures
            name@ == self@.ilk(),
    {
        match self {
            EventData::Icp(_) => String::from_str("icp"),
            EventData::Rot(_) => String::from_str("rot"),
            EventData::Ixn(_) => String::from_str("ixn"),
            EventData::Dip(_) => String::from_str("dip"),
            EventData::Drt(_) => String::from_str("drt"),
        }
    }

    /// Appends the fields under which the event data is written out.
    pub fn append_fields(&self, fields: &mut Vec<Field>)
        requires
            self@.encodable(),
        ensures
            views(final(fields)@) == views(old(fields)@) + self@.fields(),
            self@.readable(),
    {
        match self {
            EventData::Icp(e) => e.append_fields(fields),
            EventData::Rot(e) => e.append_fields(fields),
            EventData::Ixn(e) => e.append_fields(fields),
            EventData::Dip(e) => e.append_fields(fields),
            EventData::Drt(e) => e.append_fields(fields),
        }
    }
}

} // verus!
