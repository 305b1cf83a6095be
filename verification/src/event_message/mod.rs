use crate::derivation::sha3_512;
use crate::derivation::sha3_512_digest;
use crate::derivation::basic::Basic;
use crate::derivation::self_addressing::SelfAddressing;
use crate::error::outcome;
use crate::error::Error;
use crate::error::Failure;
use crate::event::Event;
use crate::event::EventView;
use crate::event::event_data::EventData;
use crate::event::event_data::EventDataView;
use crate::event::sections::key_material;
use crate::event::sections::seal::EventSeal;
use crate::event::sections::seal::EventSealView;
use crate::prefix::AttachedSignaturePrefix;
use crate::prefix::BasicPrefix;
use crate::prefix::Material;
use crate::prefix::SelfAddressingPrefix;
use crate::prefix::attached_signature::AttachedSignatureView;
use crate::state::empty_digest;
use crate::state::refusal_algorithm;
use crate::state::refusal_place;
use crate::state::refusal_signatures;
use crate::state::refusal_signer;
use crate::state::IdentifierState;
use crate::state::IdentifierStateView;
use crate::state::Signatory;
use crate::state::SignatoryView;
use crate::util::document::field_names;
use crate::util::document::leaves;
use crate::util::document::text_field;
use crate::util::document::Document;
use crate::util::document::Field;
use crate::util::document::FieldView;
use crate::util::document::Value;
use crate::util::json::document_text;
use crate::util::json_laws::law_document_reads_back;
use crate::util::json_laws::normal_document;
use crate::util::json_laws::normal_field;
use crate::util::json_parser::parsed;
use crate::event::reading::lemma_names;
use crate::util::reading::arrange_fields;
use crate::util::reading::arranged;
use crate::util::reading::find_field;
use crate::util::reading::lemma_arranged_as_it_stands;
use crate::util::reading::lemma_place_from;
use crate::util::reading::names_of;
use crate::util::reading::place_from;
use crate::util::reading::read_text_at;
use crate::util::reading::text_at;
use crate::util::sequence::clone_items;
use crate::util::sequence::push_item;
use crate::util::sequence::views;
use crate::util::text::hex_text_padded;
use crate::util::text::push_char;
use crate::util::text::write_hex_padded;
use vstd::prelude::*;
use vstd::string::StringExecFns;
use vstd::utf8::encode_utf8;

pub mod signed;
pub mod size;

pub use signed::parse_signed_message_json;
pub use signed::serialize_signed_message_json;

verus! {

/// An event with its version string and the signatures attached to it.
#[derive(Debug)]
pub struct EventMessage {
    /// The version string: protocol version, wire format and serialized size.
    pub version: String,
    pub event: Event,
    /// The signatures attached to the event; they are no part of what is signed.
    pub signatures: Vec<AttachedSignaturePrefix>,
}

/// An `EventMessage` as contracts speak of it: its fields by their views.
pub struct EventMessageView {
    pub version: Seq<char>,
    pub event: EventView,
    pub signatures: Seq<AttachedSignatureView>,
}

impl View for EventMessage {
    type V = EventMessageView;

    open spec fn view(&self) -> EventMessageView {
        EventMessageView {
            version: self.version@,
            event: self.event@,
            signatures: views(self.signatures@),
        }
    }
}

impl Clone for EventMessage {
    fn clone(&self) -> (res: Self)
        ensures
            res@ == self@,
    {
        EventMessage {
            version: self.version.clone(),
            event: self.event.clone(),
            signatures: clone_items(&self.signatures),
        }
    }
}

/// The version string of a JSON message of the given size: `KERI10JSON`, the
/// size in at least six hexadecimal digits, and `_`.
pub open spec fn version_text(size: nat) -> Seq<char> {
    seq!['K', 'E', 'R', 'I', '1', '0', 'J', 'S', 'O', 'N'] + hex_text_padded(size, 6) + seq!['_']
}

/// The fields under which an event with the given version string is written out.
pub open spec fn message_document(version: Seq<char>, event: EventView) -> Seq<FieldView> {
    seq![text_field("vs"@, version)] + event.fields()
}

/// The size in bytes of the JSON form of an event, measured with the size
/// in the version string left at zero.
pub open spec fn serialized_size(event: EventView) -> usize {
    encode_utf8(document_text(message_document(version_text(0), event))).len() as usize
}

/// What the signatures of a message come to against a list of signers: they
/// are checked in order, each against the signer that its index names, until
/// one does not match or cannot be checked. An index that names no signer is a
/// semantic error.
pub open spec fn signatures_verified(
    payload: Seq<u8>,
    signatures: Seq<AttachedSignatureView>,
    signers: Seq<Material<Basic>>,
) -> Result<bool, Failure>
    decreases signatures.len(),
{
    if signatures.len() == 0 {
        Ok(true)
    } else {
        match signatures_verified(payload, signatures.drop_last(), signers) {
            Ok(true) => {
                let signature = signatures.last();
                if signature.index < signers.len() {
                    BasicPrefix::verification(
                        signers[signature.index as int],
                        payload,
                        signature.sig,
                    )
                } else {
                    Err(Failure::Semantic(refusal_signer()))
                }
            },
            other => other,
        }
    }
}

impl EventMessageView {
    /// Whether every prefix of the event is short enough to be written as text on this machine.
    pub open spec fn encodable(self) -> bool {
        self.event.encodable()
    }

    /// Whether the text of every prefix of the event reads back as the prefix.
    #[verifier::opaque]
    pub open spec fn readable(self) -> bool {
        self.event.readable()
    }

    /// The message without its signatures.
    pub open spec fn unsigned(self) -> EventMessageView {
        EventMessageView { signatures: Seq::empty(), ..self }
    }

    /// The message that a document stands for: the version string first,
    /// then the event up to the last field. It has no signatures.
    pub open spec fn decoded(document: Seq<FieldView>) -> Result<EventMessageView, Failure> {
        match text_at(document, 0, "vs"@) {
            Err(failure) => Err(failure),
            Ok(version) => match EventView::decoded(document, 1) {
                Err(failure) => Err(failure),
                Ok(event) => Ok(EventMessageView { version, event, signatures: Seq::empty() }),
            },
        }
    }

    /// The message that a document stands for, its fields in any order: the
    /// field named `ilk` names the kind of event, and the fields of that kind
    /// are found by their names. Fields of other names are passed over.
    pub open spec fn read(document: Seq<FieldView>) -> Result<EventMessageView, Failure> {
        match place_from(field_names(document), "ilk"@, 0) {
            None => Err(Failure::Deserialization),
            Some(place) => match text_at(document, place, "ilk"@) {
                Err(failure) => Err(failure),
                Ok(ilk) => match message_names(ilk) {
                    None => Err(Failure::Deserialization),
                    Some(names) => match arranged(document, field_names(document), names) {
                        None => Err(Failure::Deserialization),
                        Some(ordered) => Self::decoded(ordered),
                    },
                },
            },
        }
    }

    /// The fields of a message are written under the names of its kind.
    pub proof fn lemma_written_names(self)
        ensures
            message_names(self.event.event_data.ilk()) == Some(field_names(self.document())),
            field_names(normal_document(self.document())) == field_names(self.document()),
            self.document().len() >= 4,
            field_names(self.document())[3] == "ilk"@,
            self.document()[3] == text_field("ilk"@, self.event.event_data.ilk()),
    {
        EventDataView::lemma_ilks_differ();
        let document = self.document();
        let names = field_names(document);
        assert(document[0] == text_field("vs"@, self.version));
        assert(document[1] == self.event.fields()[0]);
        assert(document[2] == self.event.fields()[1]);
        assert(document[3] == self.event.fields()[2]);
        assert(field_names(normal_document(document)) =~= names);
        match self.event.event_data {
            EventDataView::Icp(e) => {
                e.lemma_fields();
                e.key_config.lemma_fields();
                e.witness_config.lemma_fields();
                assert forall|j: int| 0 <= j < 6 implies document[4 + j] == e.fields()[j] by {
                    assert(self.event.fields()[3 + j] == e.fields()[j]);
                }
                assert(names =~= message_names("icp"@)->Some_0);
            },
            EventDataView::Rot(e) => {
                e.lemma_fields();
                e.key_config.lemma_fields();
                e.witness_config.lemma_fields();
                assert forall|j: int| 0 <= j < 8 implies document[4 + j] == e.fields()[j] by {
                    assert(self.event.fields()[3 + j] == e.fields()[j]);
                }
                assert(names =~= message_names("rot"@)->Some_0);
            },
            EventDataView::Ixn(e) => {
                e.lemma_fields();
                assert forall|j: int| 0 <= j < 2 implies document[4 + j] == e.fields()[j] by {
                    assert(self.event.fields()[3 + j] == e.fields()[j]);
                }
                assert(names =~= message_names("ixn"@)->Some_0);
            },
            EventDataView::Dip(e) => {
                e.lemma_fields();
                e.inception_data.lemma_fields();
                e.inception_data.key_config.lemma_fields();
                e.inception_data.witness_config.lemma_fields();
                assert forall|j: int| 0 <= j < 7 implies document[4 + j] == e.fields()[j] by {
                    assert(self.event.fields()[3 + j] == e.fields()[j]);
                }
                assert forall|j: int| 0 <= j < 6 implies e.fields()[j]
                    == e.inception_data.fields()[j] by {}
                assert(names =~= message_names("dip"@)->Some_0);
            },
            EventDataView::Drt(e) => {
                e.lemma_fields();
                e.rotation_data.lemma_fields();
                e.rotation_data.key_config.lemma_fields();
                e.rotation_data.witness_config.lemma_fields();
                assert forall|j: int| 0 <= j < 9 implies document[4 + j] == e.fields()[j] by {
                    assert(self.event.fields()[3 + j] == e.fields()[j]);
                }
                assert forall|j: int| 0 <= j < 8 implies e.fields()[j]
                    == e.rotation_data.fields()[j] by {}
                assert(names =~= message_names("drt"@)->Some_0);
            },
        }
    }

    /// A document that holds the fields of a message in the order in which
    /// they are written is arranged as it stands.
    pub proof fn lemma_arranged(self)
        ensures
            Self::read(normal_document(self.document())) == Self::decoded(
                normal_document(self.document()),
            ),
    {
        self.lemma_written_names();
        lemma_names();
        let document = normal_document(self.document());
        let names = field_names(document);
        assert(document[3] == normal_field(self.document()[3]));
        lemma_place_from(names, "ilk"@, 0, 3);
        lemma_distinct_names(self.event.event_data.ilk());
        lemma_arranged_as_it_stands(document, names, names);
        assert(document.take(names.len() as int) =~= document);
    }

    /// A message whose prefixes read back reads back from its JSON form,
    /// without its signatures.
    pub proof fn lemma_reads_back(self)
        requires
            self.readable(),
        ensures
            parsed_message(self.wire()) == Ok::<EventMessageView, Failure>(self.unsigned()),
    {
        reveal(EventMessageView::readable);
        law_document_reads_back(self.document());
        self.lemma_arranged();
        let document = normal_document(self.document());
        assert(document[0] == normal_field(self.document()[0]));
        assert forall|j: int| 0 <= j < self.event.fields().len() implies document[1 + j]
            == normal_field(self.event.fields()[j]) by {
            assert(self.document()[1 + j] == self.event.fields()[j]);
        }
        self.event.lemma_reads_back(document, 1);
    }

    /// The fields under which the message is written out: the version
    /// string, then the event. The signatures are left out.
    pub open spec fn document(self) -> Seq<FieldView> {
        message_document(self.version, self.event)
    }

    /// The message as JSON.
    pub open spec fn wire(self) -> Seq<char> {
        document_text(self.document())
    }

    /// What is signed: the values of the message one after another in the
    /// order of its fields, without names and without the signatures.
    pub open spec fn payload(self) -> Seq<char> {
        leaves(self.document())
    }

    /// The digest of the message: SHA3-512 of what is signed.
    pub open spec fn digest(self) -> Material<SelfAddressing> {
        Material { kind: SelfAddressing::SHA3_512, derivative: sha3_512(encode_utf8(self.payload())) }
    }

    /// Whether the version string states the size of the message.
    pub open spec fn well_formed(self) -> bool {
        self.version == version_text(encode_utf8(self.wire()).len() as usize as nat)
    }

    /// Whether the signatures authorize the message for the given signers:
    /// there are at least as many as the threshold asks for, and each is a
    /// signature of the payload under the signer that its index names.
    pub open spec fn verification(self, current: SignatoryView) -> Result<bool, Failure> {
        if self.signatures.len() < current.threshold {
            Ok(false)
        } else {
            signatures_verified(encode_utf8(self.payload()), self.signatures, current.signers)
        }
    }

    /// The state that the message leads to once its signatures have been
    /// accepted; `known` are the events that a delegating seal may name.
    pub open spec fn applied(self, state: IdentifierStateView, known: Seq<EventSealView>) -> Result<
        IdentifierStateView,
        Failure,
    > {
        if !state.continues_with(self.event) {
            Err(Failure::Semantic(refusal_place()))
        } else {
            match self.event.event_data {
                EventDataView::Rot(e) => self.applied_rotation(
                    state,
                    known,
                    e.key_config.public_keys,
                ),
                EventDataView::Drt(e) => self.applied_rotation(
                    state,
                    known,
                    e.rotation_data.key_config.public_keys,
                ),
                _ => state.advanced(self.event, known, empty_digest(), self.digest()),
            }
        }
    }

    /// The state that a rotation leads to: the digest of the keys that it
    /// reveals is taken under the algorithm of the commitment that the state
    /// holds. Where the library cannot compute that algorithm the commitment
    /// cannot be confirmed, and the rotation is refused with a semantic error.
    pub open spec fn applied_rotation(
        self,
        state: IdentifierStateView,
        known: Seq<EventSealView>,
        keys: Seq<Material<Basic>>,
    ) -> Result<IdentifierStateView, Failure> {
        match state.next.kind.derived(key_material(keys)) {
            Ok(commitment) => state.advanced(self.event, known, commitment, self.digest()),
            Err(_) => Err(Failure::Semantic(refusal_algorithm())),
        }
    }

    /// The state that the message leads to from `state`: the event must
    /// continue the log, the signatures must authorize it, and the event
    /// must apply.
    pub open spec fn transition(
        self,
        state: IdentifierStateView,
        known: Seq<EventSealView>,
    ) -> Result<
        IdentifierStateView,
        Failure,
    > {
        if !state.continues_with(self.event) {
            Err(Failure::Semantic(refusal_place()))
        } else {
            match self.verification(state.authority(self.event)) {
                Ok(true) => self.applied(state, known),
                Ok(false) => Err(Failure::Semantic(refusal_signatures())),
                Err(failure) => Err(failure),
            }
        }
    }
}

/// The message that a JSON text stands for; it has no signatures.
pub open spec fn parsed_message(text: Seq<char>) -> Result<EventMessageView, Failure> {
    match parsed(text) {
        Ok(document) => EventMessageView::read(document),
        Err(failure) => Err(failure),
    }
}

/// The names of the fields of a message whose event is of the kind named
/// `ilk`, in the order in which they are written.
pub open spec fn message_names(ilk: Seq<char>) -> Option<Seq<Seq<char>>> {
    if ilk == "icp"@ {
        Some(
            seq![
                "vs"@,
                "pre"@,
                "sn"@,
                "ilk"@,
                "sith"@,
                "keys"@,
                "nxt"@,
                "toad"@,
                "wits"@,
                "cnfg"@,
            ],
        )
    } else if ilk == "rot"@ {
        Some(
            seq![
                "vs"@,
                "pre"@,
                "sn"@,
                "ilk"@,
                "dig"@,
                "sith"@,
                "keys"@,
                "nxt"@,
                "toad"@,
                "cuts"@,
                "adds"@,
                "data"@,
            ],
        )
    } else if ilk == "ixn"@ {
        Some(seq!["vs"@, "pre"@, "sn"@, "ilk"@, "dig"@, "data"@])
    } else if ilk == "dip"@ {
        Some(
            seq![
                "vs"@,
                "pre"@,
                "sn"@,
                "ilk"@,
                "sith"@,
                "keys"@,
                "nxt"@,
                "toad"@,
                "wits"@,
                "cnfg"@,
                "seal"@,
            ],
        )
    } else if ilk == "drt"@ {
        Some(
            seq![
                "vs"@,
                "pre"@,
                "sn"@,
                "ilk"@,
                "dig"@,
                "sith"@,
                "keys"@,
                "nxt"@,
                "toad"@,
                "cuts"@,
                "adds"@,
                "data"@,
                "seal"@,
            ],
        )
    } else {
        None
    }
}

/// No two fields of a message have the same name.
pub proof fn lemma_distinct_names(ilk: Seq<char>)
    ensures
        message_names(ilk) matches Some(names) ==> crate::util::reading::distinct(names),
{
    lemma_names();
}

/// The names of the fields of a message whose event is of the kind named `ilk`.
fn names_of_kind(ilk: &String) -> (res: Option<Vec<String>>)
    ensures
        match res {
            Some(names) => message_names(ilk@) == Some(views(names@)),
            None => message_names(ilk@) is None,
        },
{
    let names = if *ilk == String::from_str("icp") {
        names_of(&["vs", "pre", "sn", "ilk", "sith", "keys", "nxt", "toad", "wits", "cnfg"])
    } else if *ilk == String::from_str("rot") {
        names_of(
            &[
                "vs",
                "pre",
                "sn",
                "ilk",
                "dig",
                "sith",
                "keys",
                "nxt",
                "toad",
                "cuts",
                "adds",
                "data",
            ],
        )
    } else if *ilk == String::from_str("ixn") {
        names_of(&["vs", "pre", "sn", "ilk", "dig", "data"])
    } else if *ilk == String::from_str("dip") {
        names_of(
            &["vs", "pre", "sn", "ilk", "sith", "keys", "nxt", "toad", "wits", "cnfg", "seal"],
        )
    } else if *ilk == String::from_str("drt") {
        names_of(
            &[
                "vs",
                "pre",
                "sn",
                "ilk",
                "dig",
                "sith",
                "keys",
                "nxt",
                "toad",
                "cuts",
                "adds",
                "data",
                "seal",
            ],
        )
    } else {
        return None;
    };
    assert(views(names@) =~= message_names(ilk@)->Some_0);
    Some(names)
}

/// The document of an event under a version string.
fn document_of(version: String, event: &Event) -> (document: Document)
    requires
        event@.encodable(),
    ensures
        document@ == message_document(version@, event@),
        event@.readable(),
{
    let mut fields: Vec<Field> = Vec::new();
    push_item(&mut fields, Field::new("vs", Value::Text(version)));
    event.append_fields(&mut fields);
    let document = Document { fields };
    assert(document@ =~= message_document(version@, event@));
    document
}

/// Writes the version string of a JSON message of the given size.
pub fn write_version(size: usize) -> (text: String)
    ensures
        text@ == version_text(size as nat),
{
    proof {
        reveal_strlit("KERI10JSON");
    }
    let mut text = String::from_str("KERI10JSON");
    let digits = write_hex_padded(size as u64);
    text.append(digits.as_str());
    push_char(&mut text, '_');
    assert(text@ =~= version_text(size as nat));
    text
}

impl EventMessage {
    /// The message of an event with the given signatures. Its version string
    /// states the size of the JSON form of the message, which is measured with
    /// the size left at zero; the two sizes agree as long as six hexadecimal
    /// digits hold the size.
    pub fn new(event: &Event, sigs: Vec<AttachedSignaturePrefix>) -> (res: Result<Self, Error>)
        requires
            event@.encodable(),
        ensures
            res matches Ok(message) && message@ == (EventMessageView {
                version: version_text(serialized_size(event@) as nat),
                event: event@,
                signatures: views(sigs@),
            }),
            serialized_size(event@) < 0x100_0000 ==> res->Ok_0@.well_formed(),
    {
        let size = match Self::get_size(event) {
            Ok(size) => size,
            Err(e) => {
                return Err(e);
            },
        };
        let message = EventMessage {
            version: write_version(size),
            event: event.clone(),
            signatures: sigs,
        };
        proof {
            if size < 0x100_0000 {
                size::lemma_size_with_version(event@, size as nat, views(sigs@));
            }
        }
        Ok(message)
    }

    /// The size in bytes of the JSON form of the message of an event,
    /// measured with the size in the version string left at zero.
    pub fn get_size(event: &Event) -> (res: Result<usize, Error>)
        requires
            event@.encodable(),
        ensures
            res == Ok::<usize, Error>(serialized_size(event@)),
    {
        let document = document_of(write_version(0), event);
        let text = crate::util::json::to_string(&document);
        Ok(text.as_str().len())
    }

    /// Whether every prefix of the event is short enough to be written as
    /// text on this machine.
    pub fn is_encodable(&self) -> (ok: bool)
        ensures
            ok == self@.encodable(),
    {
        self.event.is_encodable()
    }

    /// Whether the version string states the size of the message.
    pub fn is_well_formed(&self) -> (ok: bool)
        requires
            self@.encodable(),
        ensures
            ok == self@.well_formed(),
    {
        let text = crate::util::json::to_string(&self.to_document());
        self.version == write_version(text.as_str().len())
    }

    /// The fields under which the message is written out.
    pub fn to_document(&self) -> (document: Document)
        requires
            self@.encodable(),
        ensures
            document@ == self@.document(),
            self@.readable(),
    {
        proof {
            reveal(EventMessageView::readable);
        }
        document_of(self.version.clone(), &self.event)
    }

    /// Reads a message from a document, its fields in any order; it has no
    /// signatures.
    ///
    /// Fails with `DeserializationError` where the field `ilk` names no kind
    /// of event or a field of that kind is missing or of another shape, and
    /// with the error of the value that cannot be read.
    pub fn from_document(document: &Document) -> (res: Result<EventMessage, Error>)
        ensures
            outcome(res) == EventMessageView::read(document@),
    {
        let place = match find_field(document, &String::from_str("ilk")) {
            Some(place) => place,
            None => {
                return Err(Error::DeserializationError);
            },
        };
        let ilk = match read_text_at(document, place, "ilk") {
            Ok(ilk) => ilk,
            Err(e) => {
                return Err(e);
            },
        };
        let names = match names_of_kind(ilk) {
            Some(names) => names,
            None => {
                return Err(Error::DeserializationError);
            },
        };
        match arrange_fields(document, &names) {
            Some(ordered) => Self::from_ordered(&ordered),
            None => Err(Error::DeserializationError),
        }
    }

    /// Reads a message from a document whose fields stand in the order in
    /// which they are written.
    fn from_ordered(document: &Document) -> (res: Result<EventMessage, Error>)
        ensures
            outcome(res) == EventMessageView::decoded(document@),
    {
        let version = match read_text_at(document, 0, "vs") {
            Ok(version) => version.clone(),
            Err(e) => {
                return Err(e);
            },
        };
        match Event::decode(document, 1) {
            Ok(event) => {
                let message = EventMessage { version, event, signatures: Vec::new() };
                assert(message@.signatures =~= Seq::empty());
                Ok(message)
            },
            Err(e) => Err(e),
        }
    }

    /// Extracts what is signed and verified: the values of the message one
    /// after another, without the signatures.
    pub fn extract_serialized_data_set(&self) -> (res: Result<String, Error>)
        requires
            self@.encodable(),
        ensures
            res matches Ok(payload) && payload@ == self@.payload(),
    {
        crate::util::dfs_serializer::to_string(self)
    }

    /// The digest of the message: SHA3-512 of what is signed.
    pub fn digest(&self) -> (digest: SelfAddressingPrefix)
        requires
            self@.encodable(),
        ensures
            digest@ == self@.digest(),
            digest@.encodable(),
    {
        let payload = self.to_document().leaves();
        SelfAddressingPrefix::SHA3_512(sha3_512_digest(payload.as_str().as_bytes()))
    }

    /// Whether the signatures authorize the message for the given signers.
    pub fn verify_with(&self, current: &Signatory) -> (res: Result<bool, Error>)
        requires
            self@.encodable(),
        ensures
            outcome(res) == self@.verification(current@),
    {
        if (self.signatures.len() as u64) < current.threshold {
            return Ok(false);
        }
        let payload = self.to_document().leaves();
        let data = payload.as_str().as_bytes();
        let ghost signatures = views(self.signatures@);
        let mut i: usize = 0;
        while i < self.signatures.len()
            invariant
                i <= self.signatures.len(),
                signatures == views(self.signatures@),
                self@.signatures.len() >= current@.threshold,
                data@ == encode_utf8(self@.payload()),
                signatures_verified(data@, signatures.take(i as int), current@.signers) == Ok::<
                    bool,
                    Failure,
                >(true),
            decreases self.signatures.len() - i,
        {
            assert(signatures.take(i + 1).drop_last() =~= signatures.take(i as int));
            assert(signatures.take(i + 1).last() == self.signatures@[i as int]@);
            let signature = &self.signatures[i];
            let index = signature.index as usize;
            if index >= current.signers.len() {
                proof {
                    assert(signatures_verified(data@, signatures.take(i + 1), current@.signers)
                        == Err::<bool, Failure>(Failure::Semantic(refusal_signer())));
                    lemma_verdict_final(data@, signatures, current@.signers, i + 1);
                }
                return Err(Error::semantic("Key not present in state"));
            }
            assert(views(current.signers@)[index as int] == current.signers@[index as int]@);
            match current.signers[index].verify(data, &signature.sig) {
                Ok(true) => {},
                other => {
                    proof {
                        assert(signatures_verified(data@, signatures.take(i + 1), current@.signers)
                            == outcome(other));
                        lemma_verdict_final(data@, signatures, current@.signers, i + 1);
                    }
                    return other;
                },
            }
            i = i + 1;
        }
        assert(signatures.take(signatures.len() as int) =~= signatures);
        Ok(true)
    }

    /// Whether the signatures authorize the message against a state: there
    /// are at least as many as the threshold of the current keys asks for, and
    /// each is a signature of the payload under the current key that its
    /// index names.
    pub fn verify_against(&self, state: &IdentifierState) -> (res: Result<bool, Error>)
        requires
            self@.encodable(),
        ensures
            outcome(res) == self@.verification(state@.current),
    {
        self.verify_with(&state.current)
    }

    /// Applies the event of the message to a state, without looking at the
    /// signatures; no event of another log is known, so that a delegated
    /// event is refused.
    pub fn apply_to(&self, state: IdentifierState) -> (res: Result<IdentifierState, Error>)
        requires
            self@.encodable(),
        ensures
            outcome(res) == self@.applied(state@, Seq::empty()),
    {
        let known: Vec<EventSeal> = Vec::new();
        assert(views(known@) =~= Seq::empty());
        self.apply_with(&state, &known)
    }

    /// Applies the event of the message to a state, without looking at the
    /// signatures; `known_events` are the events that a delegating seal may name.
    pub fn apply_with(
        &self,
        state: &IdentifierState,
        known_events: &Vec<EventSeal>,
    ) -> (res: Result<
        IdentifierState,
        Error,
    >)
        requires
            self@.encodable(),
        ensures
            outcome(res) == self@.applied(state@, views(known_events@)),
    {
        if !state.continues_with(&self.event) {
            return Err(Error::semantic("The event does not continue the log"));
        }
        let commitment = match &self.event.event_data {
            EventData::Rot(e) => {
                let material = e.key_config.key_material();
                match state.next.derivation().derive(material.as_slice()) {
                    Ok(commitment) => commitment,
                    Err(_) => {
                        return Err(
                            Error::semantic("The commitment to the keys cannot be computed"),
                        );
                    },
                }
            },
            EventData::Drt(e) => {
                let material = e.rotation_data.key_config.key_material();
                match state.next.derivation().derive(material.as_slice()) {
                    Ok(commitment) => commitment,
                    Err(_) => {
                        return Err(
                            Error::semantic("The commitment to the keys cannot be computed"),
                        );
                    },
                }
            },
            _ => SelfAddressingPrefix::default(),
        };
        state.advance(&self.event, known_events, &commitment, self.digest())
    }
}

/// Once a signature does not match or cannot be checked, the signatures
/// after it change nothing.
pub proof fn lemma_verdict_final(
    payload: Seq<u8>,
    signatures: Seq<AttachedSignatureView>,
    signers: Seq<Material<Basic>>,
    n: int,
)
    requires
        0 <= n <= signatures.len(),
        signatures_verified(payload, signatures.take(n), signers) != Ok::<bool, Failure>(true),
    ensures
        signatures_verified(payload, signatures, signers) == signatures_verified(
            payload,
            signatures.take(n),
            signers,
        ),
    decreases signatures.len() - n,
{
    if n < signatures.len() {
        assert(signatures.take(n + 1).drop_last() =~= signatures.take(n));
        lemma_verdict_final(payload, signatures, signers, n + 1);
    } else {
        assert(signatures.take(n) =~= signatures);
    }
}

/// Whether every message of a list can be written as text on this machine.
pub open spec fn messages_encodable(kel: Seq<EventMessageView>) -> bool {
    forall|i: int| 0 <= i < kel.len() ==> (#[trigger] kel[i]).encodable()
}

/// Whether every message of a list can be written as text on this machine.
pub fn are_messages_encodable(kel: &[EventMessage]) -> (ok: bool)
    ensures
        ok == messages_encodable(views(kel@)),
{
    let mut i: usize = 0;
    while i < kel.len()
        invariant
            i <= kel.len(),
            forall|j: int| 0 <= j < i ==> (#[trigger] views(kel@)[j]).encodable(),
        decreases kel.len() - i,
    {
        if !kel[i].is_encodable() {
            assert(!views(kel@)[i as int].encodable());
            return false;
        }
        i = i + 1;
    }
    true
}

/// The state that a list of messages leads to: each is verified against the
/// state that those before it led to, and applied to it, starting from the
/// state before any event. The first message that is refused decides.
pub open spec fn validated(kel: Seq<EventMessageView>) -> Result<IdentifierStateView, Failure>
    decreases kel.len(),
{
    if kel.len() == 0 {
        Ok(IdentifierStateView::zero())
    } else {
        match validated(kel.drop_last()) {
            Ok(state) => kel.last().transition(state, Seq::empty()),
            Err(failure) => Err(failure),
        }
    }
}

/// Once a message is refused, the messages after it change nothing: no
/// state comes of the list, and the failure is that of the first refusal.
pub proof fn law_first_refusal_decides(kel: Seq<EventMessageView>, n: int)
    requires
        0 <= n <= kel.len(),
        validated(kel.take(n)) is Err,
    ensures
        validated(kel) == validated(kel.take(n)),
    decreases kel.len() - n,
{
    if n < kel.len() {
        assert(kel.take(n + 1).drop_last() =~= kel.take(n));
        law_first_refusal_decides(kel, n + 1);
    } else {
        assert(kel.take(n) =~= kel);
    }
}

/// Validates a list of messages in order, from the state before any event,
/// and gives the state that they lead to. The first message that is refused
/// ends the validation with its error; no state is given then.
pub fn validate_events(kel: &[EventMessage]) -> (res: Result<IdentifierState, Error>)
    requires
        messages_encodable(views(kel@)),
    ensures
        outcome(res) == validated(views(kel@)),
{
    match validate_events_at(kel) {
        Ok(state) => Ok(state),
        Err((_, e)) => Err(e),
    }
}

/// Validates a list of messages as `validate_events` does, and says with
/// the error at which place the first refused message stands: the messages
/// before it are accepted, and it is refused with that error.
pub fn validate_events_at(kel: &[EventMessage]) -> (res: Result<IdentifierState, (usize, Error)>)
    requires
        messages_encodable(views(kel@)),
    ensures
        match res {
            Ok(state) => validated(views(kel@)) == Ok::<IdentifierStateView, Failure>(state@),
            Err((place, e)) => {
                &&& place < kel@.len()
                &&& validated(views(kel@).take(place as int)) is Ok
                &&& validated(views(kel@).take(place + 1)) == Err::<IdentifierStateView, Failure>(
                    e@,
                )
                &&& validated(views(kel@)) == Err::<IdentifierStateView, Failure>(e@)
            },
        },
{
    let mut state = IdentifierState::default();
    let ghost all = views(kel@);
    let mut i: usize = 0;
    while i < kel.len()
        invariant
            i <= kel.len(),
            all == views(kel@),
            messages_encodable(all),
            validated(all.take(i as int)) == Ok::<IdentifierStateView, Failure>(state@),
        decreases kel.len() - i,
    {
        assert(all.take(i + 1).drop_last() =~= all.take(i as int));
        assert(all.take(i + 1).last() == kel@[i as int]@);
        assert(all[i as int].encodable());
        match state.verify_and_apply(&kel[i]) {
            Ok(next) => {
                state = next;
            },
            Err(e) => {
                proof {
                    assert(validated(all.take(i + 1)) == Err::<IdentifierStateView, Failure>(e@));
                    law_first_refusal_decides(all, i + 1);
                }
                return Err((i, e));
            },
        }
        i = i + 1;
    }
    assert(all.take(all.len() as int) =~= all);
    Ok(state)
}

} // verus!
