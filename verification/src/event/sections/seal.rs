use crate::derivation::self_addressing::SelfAddressing;
use crate::error::outcome;
use crate::error::Error;
use crate::error::Failure;
use crate::prefix::IdentifierPrefix;
use crate::prefix::IdentifierPrefixView;
use crate::prefix::Material;
use crate::prefix::SelfAddressingPrefix;
use crate::event::reading::lemma_names;
use crate::util::document::entry_names;
use crate::util::document::Entry;
use crate::util::document::EntryView;
use crate::util::document::Record;
use crate::util::reading::arrange_entries;
use crate::util::reading::arranged;
use crate::util::reading::entry_at;
use crate::util::reading::find_entry;
use crate::util::reading::lemma_arranged_as_it_stands;
use crate::util::reading::names_of;
use crate::util::reading::place_from;
use crate::util::reading::entry_number_at;
use crate::util::reading::lemma_parsed_all_final;
use crate::util::reading::lemma_parsed_all_reads_back;
use crate::util::reading::parsed_all;
use crate::util::reading::read_entry_at;
use crate::util::reading::read_entry_number_at;
use crate::util::sequence::push_item;
use crate::util::sequence::views;
use crate::util::text::hex_text;
use crate::util::text::lemma_hex_reads_back;
use crate::util::text::write_hex;
use vstd::prelude::*;
use vstd::string::StringExecFns;

verus! {

/// The digest of the entry at place `k` of a record, which must have the given name.
pub open spec fn entry_digest_at(entries: Seq<EntryView>, k: int, name: Seq<char>) -> Result<
    Material<SelfAddressing>,
    Failure,
> {
    match entry_at(entries, k, name) {
        Ok(text) => Material::<SelfAddressing>::parse(text),
        Err(failure) => Err(failure),
    }
}

/// The identifier of the entry at place `k` of a record, which must have the given name.
pub open spec fn entry_identifier_at(entries: Seq<EntryView>, k: int, name: Seq<char>) -> Result<
    IdentifierPrefixView,
    Failure,
> {
    match entry_at(entries, k, name) {
        Ok(text) => IdentifierPrefixView::parse(text),
        Err(failure) => Err(failure),
    }
}

fn read_entry_digest_at(record: &Record, k: usize, name: &str) -> (res: Result<
    SelfAddressingPrefix,
    Error,
>)
    ensures
        outcome(res) == entry_digest_at(record@, k as int, name@),
{
    match read_entry_at(record, k, name) {
        Ok(text) => SelfAddressingPrefix::from_str(text.as_str()),
        Err(e) => Err(e),
    }
}

fn read_entry_identifier_at(record: &Record, k: usize, name: &str) -> (res: Result<
    IdentifierPrefix,
    Error,
>)
    ensures
        outcome(res) == entry_identifier_at(record@, k as int, name@),
{
    match read_entry_at(record, k, name) {
        Ok(text) => IdentifierPrefix::from_str(text.as_str()),
        Err(e) => Err(e),
    }
}

fn read_entry_text_at(record: &Record, k: usize, name: &str) -> (res: Result<String, Error>)
    ensures
        outcome(res) == entry_at(record@, k as int, name@),
{
    match read_entry_at(record, k, name) {
        Ok(text) => Ok(text.clone()),
        Err(e) => Err(e),
    }
}

/// A seal that anchors data by its digest.
#[derive(Debug, PartialEq)]
pub struct DigestSeal {
    /// The digest of the anchored data.
    pub dig: SelfAddressingPrefix,
}

/// A `DigestSeal` as contracts speak of it: its fields by their views.
pub struct DigestSealView {
    pub dig: Material<SelfAddressing>,
}

impl View for DigestSeal {
    type V = DigestSealView;

    open spec fn view(&self) -> DigestSealView {
        DigestSealView {
            dig: self.dig@,
        }
    }
}

impl Clone for DigestSeal {
    fn clone(&self) -> (res: Self)
        ensures
            res@ == self@,
    {
        DigestSeal {
            dig: self.dig.clone(),
        }
    }
}

impl DigestSealView {
    /// Whether every prefix is short enough to be written as text on this machine.
    pub open spec fn encodable(self) -> bool {
        self.dig.encodable()
    }

    /// Whether the text of every prefix reads back as the prefix.
    pub open spec fn readable(self) -> bool {
        self.dig.readable()
    }

    /// The seal as a record: its values as text, under their names.
    pub open spec fn entries(self) -> Seq<EntryView> {
        seq![
            EntryView { name: "dig"@, text: self.dig.text() },
        ]
    }

    /// The seal that the entries of a record stand for, from place `k` on.
    pub open spec fn decoded(entries: Seq<EntryView>, k: int) -> Result<DigestSealView, Failure> {
        match entry_digest_at(entries, k, "dig"@) {
            Err(failure) => Err(failure),
            Ok(dig) => Ok(DigestSealView { dig }),
        }
    }

    /// The seal that a record of its own stands for.
    pub open spec fn decoded_record(entries: Seq<EntryView>) -> Result<DigestSealView, Failure> {
        if entries.len() != 1 {
            Err(Failure::Deserialization)
        } else {
            Self::decoded(entries, 0)
        }
    }

    /// A seal whose prefixes read back reads back from its entries.
    pub proof fn lemma_reads_back(self, entries: Seq<EntryView>, k: int)
        requires
            self.readable(),
            0 <= k,
            k + 1 <= entries.len(),
            forall|j: int| 0 <= j < 1 ==> entries[k + j] == self.entries()[j],
        ensures
            Self::decoded(entries, k) == Ok::<DigestSealView, Failure>(self),
    {
        assert(entries[k + 0] == self.entries()[0]);
    }
}

impl DigestSeal {
    /// Whether every prefix is short enough to be written as text on this machine.
    pub fn is_encodable(&self) -> (ok: bool)
        ensures
            ok == self@.encodable(),
    {
        self.dig.is_encodable()
    }

    /// Writes the seal as a record.
    pub fn to_record(&self) -> (record: Record)
        requires
            self@.encodable(),
        ensures
            record@ == self@.entries(),
            self@.readable(),
    {
        let mut entries: Vec<Entry> = Vec::new();
        entries.push(Entry::new("dig", self.dig.to_str()));
        let record = Record { entries };
        assert(record@ =~= self@.entries());
        record
    }

    /// Reads the seal from the entries of a record, from place `k` on.
    pub fn decode(record: &Record, k: usize) -> (res: Result<DigestSeal, Error>)
        requires
            k <= 1,
        ensures
            outcome(res) == DigestSealView::decoded(record@, k as int),
    {
        let dig = match read_entry_digest_at(record, k, "dig") {
            Ok(value) => value,
            Err(e) => {
                return Err(e);
            },
        };
        Ok(DigestSeal { dig })
    }

    /// Reads the seal from a record of its own.
    pub fn from_record(record: &Record) -> (res: Result<DigestSeal, Error>)
        ensures
            outcome(res) == DigestSealView::decoded_record(record@),
    {
        if record.entries.len() != 1 {
            return Err(Error::DeserializationError);
        }
        Self::decode(record, 0)
    }
}

/// A seal that anchors a tree of data by the digest at its root.
#[derive(Debug, PartialEq)]
pub struct RootSeal {
    /// The digest at the root of the anchored tree.
    pub tree_root: SelfAddressingPrefix,
}

/// A `RootSeal` as contracts speak of it: its fields by their views.
pub struct RootSealView {
    pub tree_root: Material<SelfAddressing>,
}

impl View for RootSeal {
    type V = RootSealView;

    open spec fn view(&self) -> RootSealView {
        RootSealView {
            tree_root: self.tree_root@,
        }
    }
}

impl Clone for RootSeal {
    fn clone(&self) -> (res: Self)
        ensures
            res@ == self@,
    {
        RootSeal {
            tree_root: self.tree_root.clone(),
        }
    }
}

impl RootSealView {
    /// Whether every prefix is short enough to be written as text on this machine.
    pub open spec fn encodable(self) -> bool {
        self.tree_root.encodable()
    }

    /// Whether the text of every prefix reads back as the prefix.
    pub open spec fn readable(self) -> bool {
        self.tree_root.readable()
    }

    /// The seal as a record: its values as text, under their names.
    pub open spec fn entries(self) -> Seq<EntryView> {
        seq![
            EntryView { name: "root"@, text: self.tree_root.text() },
        ]
    }

    /// The seal that the entries of a record stand for, from place `k` on.
    pub open spec fn decoded(entries: Seq<EntryView>, k: int) -> Result<RootSealView, Failure> {
        match entry_digest_at(entries, k, "root"@) {
            Err(failure) => Err(failure),
            Ok(tree_root) => Ok(RootSealView { tree_root }),
        }
    }

    /// The seal that a record of its own stands for.
    pub open spec fn decoded_record(entries: Seq<EntryView>) -> Result<RootSealView, Failure> {
        if entries.len() != 1 {
            Err(Failure::Deserialization)
        } else {
            Self::decoded(entries, 0)
        }
    }

    /// A seal whose prefixes read back reads back from its entries.
    pub proof fn lemma_reads_back(self, entries: Seq<EntryView>, k: int)
        requires
            self.readable(),
            0 <= k,
            k + 1 <= entries.len(),
            forall|j: int| 0 <= j < 1 ==> entries[k + j] == self.entries()[j],
        ensures
            Self::decoded(entries, k) == Ok::<RootSealView, Failure>(self),
    {
        assert(entries[k + 0] == self.entries()[0]);
    }
}

impl RootSeal {
    /// Whether every prefix is short enough to be written as text on this machine.
    pub fn is_encodable(&self) -> (ok: bool)
        ensures
            ok == self@.encodable(),
    {
        self.tree_root.is_encodable()
    }

    /// Writes the seal as a record.
    pub fn to_record(&self) -> (record: Record)
        requires
            self@.encodable(),
        ensures
            record@ == self@.entries(),
            self@.readable(),
    {
        let mut entries: Vec<Entry> = Vec::new();
        entries.push(Entry::new("root", self.tree_root.to_str()));
        let record = Record { entries };
        assert(record@ =~= self@.entries());
        record
    }

    /// Reads the seal from the entries of a record, from place `k` on.
    pub fn decode(record: &Record, k: usize) -> (res: Result<RootSeal, Error>)
        requires
            k <= 1,
        ensures
            outcome(res) == RootSealView::decoded(record@, k as int),
    {
        let tree_root = match read_entry_digest_at(record, k, "root") {
            Ok(value) => value,
            Err(e) => {
                return Err(e);
            },
        };
        Ok(RootSeal { tree_root })
    }

    /// Reads the seal from a record of its own.
    pub fn from_record(record: &Record) -> (res: Result<RootSeal, Error>)
        ensures
            outcome(res) == RootSealView::decoded_record(record@),
    {
        if record.entries.len() != 1 {
            return Err(Error::DeserializationError);
        }
        Self::decode(record, 0)
    }
}

/// A seal that refers to an event of an identifier by its digest.
#[derive(Debug, PartialEq)]
pub struct EventSeal {
    /// The identifier that the seal refers to.
    pub prefix: IdentifierPrefix,
    /// The digest of the event referred to.
    pub event_digest: SelfAddressingPrefix,
}

/// An `EventSeal` as contracts speak of it: its fields by their views.
pub struct EventSealView {
    pub prefix: IdentifierPrefixView,
    pub event_digest: Material<SelfAddressing>,
}

impl View for EventSeal {
    type V = EventSealView;

    open spec fn view(&self) -> EventSealView {
        EventSealView {
            prefix: self.prefix@,
            event_digest: self.event_digest@,
        }
    }
}

impl Clone for EventSeal {
    fn clone(&self) -> (res: Self)
        ensures
            res@ == self@,
    {
        EventSeal {
            prefix: self.prefix.clone(),
            event_digest: self.event_digest.clone(),
        }
    }
}

impl EventSealView {
    /// Whether every prefix is short enough to be written as text on this machine.
    pub open spec fn encodable(self) -> bool {
        self.prefix.encodable()
        && self.event_digest.encodable()
    }

    /// Whether the text of every prefix reads back as the prefix.
    pub open spec fn readable(self) -> bool {
        self.prefix.readable()
        && self.event_digest.readable()
    }

    /// The seal as a record: its values as text, under their names.
    pub open spec fn entries(self) -> Seq<EntryView> {
        seq![
            EntryView { name: "pre"@, text: self.prefix.text() },
            EntryView { name: "dig"@, text: self.event_digest.text() },
        ]
    }

    /// The seal that the entries of a record stand for, from place `k` on.
    pub open spec fn decoded(entries: Seq<EntryView>, k: int) -> Result<EventSealView, Failure> {
        match entry_identifier_at(entries, k, "pre"@) {
            Err(failure) => Err(failure),
            Ok(prefix) => match entry_digest_at(entries, k + 1, "dig"@) {
                Err(failure) => Err(failure),
                Ok(event_digest) => Ok(EventSealView { prefix, event_digest }),
            },
        }
    }

    /// The seal that a record of its own stands for.
    pub open spec fn decoded_record(entries: Seq<EntryView>) -> Result<EventSealView, Failure> {
        if entries.len() != 2 {
            Err(Failure::Deserialization)
        } else {
            Self::decoded(entries, 0)
        }
    }

    /// A seal whose prefixes read back reads back from its entries.
    pub proof fn lemma_reads_back(self, entries: Seq<EntryView>, k: int)
        requires
            self.readable(),
            0 <= k,
            k + 2 <= entries.len(),
            forall|j: int| 0 <= j < 2 ==> entries[k + j] == self.entries()[j],
        ensures
            Self::decoded(entries, k) == Ok::<EventSealView, Failure>(self),
    {
        assert(entries[k + 0] == self.entries()[0]);
        assert(entries[k + 1] == self.entries()[1]);
    }
}

impl EventSeal {
    /// Whether every prefix is short enough to be written as text on this machine.
    pub fn is_encodable(&self) -> (ok: bool)
        ensures
            ok == self@.encodable(),
    {
        self.prefix.is_encodable() && self.event_digest.is_encodable()
    }

    /// Writes the seal as a record.
    pub fn to_record(&self) -> (record: Record)
        requires
            self@.encodable(),
        ensures
            record@ == self@.entries(),
            self@.readable(),
    {
        let mut entries: Vec<Entry> = Vec::new();
        entries.push(Entry::new("pre", self.prefix.to_str()));
        entries.push(Entry::new("dig", self.event_digest.to_str()));
        let record = Record { entries };
        assert(record@ =~= self@.entries());
        record
    }

    /// Reads the seal from the entries of a record, from place `k` on.
    pub fn decode(record: &Record, k: usize) -> (res: Result<EventSeal, Error>)
        requires
            k <= 1,
        ensures
            outcome(res) == EventSealView::decoded(record@, k as int),
    {
        let prefix = match read_entry_identifier_at(record, k, "pre") {
            Ok(value) => value,
            Err(e) => {
                return Err(e);
            },
        };
        let event_digest = match read_entry_digest_at(record, k + 1, "dig") {
            Ok(value) => value,
            Err(e) => {
                return Err(e);
            },
        };
        Ok(EventSeal { prefix, event_digest })
    }

    /// Reads the seal from a record of its own.
    pub fn from_record(record: &Record) -> (res: Result<EventSeal, Error>)
        ensures
            outcome(res) == EventSealView::decoded_record(record@),
    {
        if record.entries.len() != 2 {
            return Err(Error::DeserializationError);
        }
        Self::decode(record, 0)
    }
}

/// A seal that refers to a place in the log of an identifier.
#[derive(Debug, PartialEq)]
pub struct LocationSeal {
    /// The identifier that the seal refers to.
    pub prefix: IdentifierPrefix,
    /// The sequence number of the event referred to.
    pub sn: u64,
    /// The kind of the event referred to.
    pub ilk: String,
    /// The digest of the event before the one referred to.
    pub prior_digest: SelfAddressingPrefix,
}

/// A `LocationSeal` as contracts speak of it: its fields by their views.
pub struct LocationSealView {
    pub prefix: IdentifierPrefixView,
    pub sn: u64,
    pub ilk: Seq<char>,
    pub prior_digest: Material<SelfAddressing>,
}

impl View for LocationSeal {
    type V = LocationSealView;

    open spec fn view(&self) -> LocationSealView {
        LocationSealView {
            prefix: self.prefix@,
            sn: self.sn,
            ilk: self.ilk@,
            prior_digest: self.prior_digest@,
        }
    }
}

impl Clone for LocationSeal {
    fn clone(&self) -> (res: Self)
        ensures
            res@ == self@,
    {
        LocationSeal {
            prefix: self.prefix.clone(),
            sn: self.sn,
            ilk: self.ilk.clone(),
            prior_digest: self.prior_digest.clone(),
        }
    }
}

impl LocationSealView {
    /// Whether every prefix is short enough to be written as text on this machine.
    pub open spec fn encodable(self) -> bool {
        self.prefix.encodable()
        && self.prior_digest.encodable()
    }

    /// Whether the text of every prefix reads back as the prefix.
    pub open spec fn readable(self) -> bool {
        self.prefix.readable()
        && self.prior_digest.readable()
    }

    /// The seal as a record: its values as text, under their names.
    pub open spec fn entries(self) -> Seq<EntryView> {
        seq![
            EntryView { name: "pre"@, text: self.prefix.text() },
            EntryView { name: "sn"@, text: hex_text(self.sn as nat) },
            EntryView { name: "ilk"@, text: self.ilk },
            EntryView { name: "dig"@, text: self.prior_digest.text() },
        ]
    }

    /// The seal that the entries of a record stand for, from place `k` on.
    pub open spec fn decoded(entries: Seq<EntryView>, k: int) -> Result<LocationSealView, Failure> {
        match entry_identifier_at(entries, k, "pre"@) {
            Err(failure) => Err(failure),
            Ok(prefix) => match entry_number_at(entries, k + 1, "sn"@) {
                Err(failure) => Err(failure),
                Ok(sn) => match entry_at(entries, k + 2, "ilk"@) {
                    Err(failure) => Err(failure),
                    Ok(ilk) => match entry_digest_at(entries, k + 3, "dig"@) {
                        Err(failure) => Err(failure),
                        Ok(prior_digest) => Ok(LocationSealView { prefix, sn, ilk, prior_digest }),
                    },
                },
            },
        }
    }

    /// The seal that a record of its own stands for.
    pub open spec fn decoded_record(entries: Seq<EntryView>) -> Result<LocationSealView, Failure> {
        if entries.len() != 4 {
            Err(Failure::Deserialization)
        } else {
            Self::decoded(entries, 0)
        }
    }

    /// A seal whose prefixes read back reads back from its entries.
    pub proof fn lemma_reads_back(self, entries: Seq<EntryView>, k: int)
        requires
            self.readable(),
            0 <= k,
            k + 4 <= entries.len(),
            forall|j: int| 0 <= j < 4 ==> entries[k + j] == self.entries()[j],
        ensures
            Self::decoded(entries, k) == Ok::<LocationSealView, Failure>(self),
    {
        assert(entries[k + 0] == self.entries()[0]);
        assert(entries[k + 1] == self.entries()[1]);
        lemma_hex_reads_back(self.sn as nat);
        assert(entries[k + 2] == self.entries()[2]);
        assert(entries[k + 3] == self.entries()[3]);
    }
}

impl LocationSeal {
    /// Whether every prefix is short enough to be written as text on this machine.
    pub fn is_encodable(&self) -> (ok: bool)
        ensures
            ok == self@.encodable(),
    {
        self.prefix.is_encodable() && self.prior_digest.is_encodable()
    }

    /// Writes the seal as a record.
    pub fn to_record(&self) -> (record: Record)
        requires
            self@.encodable(),
        ensures
            record@ == self@.entries(),
            self@.readable(),
    {
        let mut entries: Vec<Entry> = Vec::new();
        entries.push(Entry::new("pre", self.prefix.to_str()));
        entries.push(Entry::new("sn", write_hex(self.sn)));
        entries.push(Entry::new("ilk", self.ilk.clone()));
        entries.push(Entry::new("dig", self.prior_digest.to_str()));
        let record = Record { entries };
        assert(record@ =~= self@.entries());
        record
    }

    /// Reads the seal from the entries of a record, from place `k` on.
    pub fn decode(record: &Record, k: usize) -> (res: Result<LocationSeal, Error>)
        requires
            k <= 1,
        ensures
            outcome(res) == LocationSealView::decoded(record@, k as int),
    {
        let prefix = match read_entry_identifier_at(record, k, "pre") {
            Ok(value) => value,
            Err(e) => {
                return Err(e);
            },
        };
        let sn = match read_entry_number_at(record, k + 1, "sn") {
            Ok(value) => value,
            Err(e) => {
                return Err(e);
            },
        };
        let ilk = match read_entry_text_at(record, k + 2, "ilk") {
            Ok(value) => value,
            Err(e) => {
                return Err(e);
            },
        };
        let prior_digest = match read_entry_digest_at(record, k + 3, "dig") {
            Ok(value) => value,
            Err(e) => {
                return Err(e);
            },
        };
        Ok(LocationSeal { prefix, sn, ilk, prior_digest })
    }

    /// Reads the seal from a record of its own.
    pub fn from_record(record: &Record) -> (res: Result<LocationSeal, Error>)
        ensures
            outcome(res) == LocationSealView::decoded_record(record@),
    {
        if record.entries.len() != 4 {
            return Err(Error::DeserializationError);
        }
        Self::decode(record, 0)
    }
}

/// The seal by which a delegated event names the event of its delegator that approves it.
#[derive(Debug)]
pub struct DelegatingEventSeal {
    /// The identifier that the seal refers to.
    pub prefix: IdentifierPrefix,
    /// The digest of the approving event.
    pub commitment: SelfAddressingPrefix,
}

/// A `DelegatingEventSeal` as contracts speak of it: its fields by their views.
pub struct DelegatingEventSealView {
    pub prefix: IdentifierPrefixView,
    pub commitment: Material<SelfAddressing>,
}

impl View for DelegatingEventSeal {
    type V = DelegatingEventSealView;

    open spec fn view(&self) -> DelegatingEventSealView {
        DelegatingEventSealView {
            prefix: self.prefix@,
            commitment: self.commitment@,
        }
    }
}

impl Clone for DelegatingEventSeal {
    fn clone(&self) -> (res: Self)
        ensures
            res@ == self@,
    {
        DelegatingEventSeal {
            prefix: self.prefix.clone(),
            commitment: self.commitment.clone(),
        }
    }
}

impl DelegatingEventSealView {
    /// Whether every prefix is short enough to be written as text on this machine.
    pub open spec fn encodable(self) -> bool {
        self.prefix.encodable()
        && self.commitment.encodable()
    }

    /// Whether the text of every prefix reads back as the prefix.
    pub open spec fn readable(self) -> bool {
        self.prefix.readable()
        && self.commitment.readable()
    }

    /// The seal as a record: its values as text, under their names.
    pub open spec fn entries(self) -> Seq<EntryView> {
        seq![
            EntryView { name: "pre"@, text: self.prefix.text() },
            EntryView { name: "dig"@, text: self.commitment.text() },
        ]
    }

    /// The seal that the entries of a record stand for, from place `k` on.
    pub open spec fn decoded(
        entries: Seq<EntryView>,
        k: int,
    ) -> Result<DelegatingEventSealView, Failure> {
        match entry_identifier_at(entries, k, "pre"@) {
            Err(failure) => Err(failure),
            Ok(prefix) => match entry_digest_at(entries, k + 1, "dig"@) {
                Err(failure) => Err(failure),
                Ok(commitment) => Ok(DelegatingEventSealView { prefix, commitment }),
            },
        }
    }

    /// The seal that a record of its own stands for.
    pub open spec fn decoded_record(
        entries: Seq<EntryView>,
    ) -> Result<DelegatingEventSealView, Failure> {
        if entries.len() != 2 {
            Err(Failure::Deserialization)
        } else {
            Self::decoded(entries, 0)
        }
    }

    /// A seal whose prefixes read back reads back from its entries.
    pub proof fn lemma_reads_back(self, entries: Seq<EntryView>, k: int)
        requires
            self.readable(),
            0 <= k,
            k + 2 <= entries.len(),
            forall|j: int| 0 <= j < 2 ==> entries[k + j] == self.entries()[j],
        ensures
            Self::decoded(entries, k) == Ok::<DelegatingEventSealView, Failure>(self),
    {
        assert(entries[k + 0] == self.entries()[0]);
        assert(entries[k + 1] == self.entries()[1]);
    }
}

impl DelegatingEventSeal {
    /// Whether every prefix is short enough to be written as text on this machine.
    pub fn is_encodable(&self) -> (ok: bool)
        ensures
            ok == self@.encodable(),
    {
        self.prefix.is_encodable() && self.commitment.is_encodable()
    }

    /// Writes the seal as a record.
    pub fn to_record(&self) -> (record: Record)
        requires
            self@.encodable(),
        ensures
            record@ == self@.entries(),
            self@.readable(),
    {
        let mut entries: Vec<Entry> = Vec::new();
        entries.push(Entry::new("pre", self.prefix.to_str()));
        entries.push(Entry::new("dig", self.commitment.to_str()));
        let record = Record { entries };
        assert(record@ =~= self@.entries());
        record
    }

    /// Reads the seal from the entries of a record, from place `k` on.
    pub fn decode(record: &Record, k: usize) -> (res: Result<DelegatingEventSeal, Error>)
        requires
            k <= 1,
        ensures
            outcome(res) == DelegatingEventSealView::decoded(record@, k as int),
    {
        let prefix = match read_entry_identifier_at(record, k, "pre") {
            Ok(value) => value,
            Err(e) => {
                return Err(e);
            },
        };
        let commitment = match read_entry_digest_at(record, k + 1, "dig") {
            Ok(value) => value,
            Err(e) => {
                return Err(e);
            },
        };
        Ok(DelegatingEventSeal { prefix, commitment })
    }

    /// Reads the seal from a record of its own.
    pub fn from_record(record: &Record) -> (res: Result<DelegatingEventSeal, Error>)
        ensures
            outcome(res) == DelegatingEventSealView::decoded_record(record@),
    {
        if record.entries.len() != 2 {
            return Err(Error::DeserializationError);
        }
        Self::decode(record, 0)
    }
}

/// The seal by which a delegator names an event that it approves.
#[derive(Debug)]
pub struct DelegatedEventSeal {
    /// The identifier that the seal refers to.
    pub prefix: IdentifierPrefix,
    /// The sequence number of the event referred to.
    pub sn: u64,
    /// The digest of the approved event.
    pub event_digest: SelfAddressingPrefix,
}

/// A `DelegatedEventSeal` as contracts speak of it: its fields by their views.
pub struct DelegatedEventSealView {
    pub prefix: IdentifierPrefixView,
    pub sn: u64,
    pub event_digest: Material<SelfAddressing>,
}

impl View for DelegatedEventSeal {
    type V = DelegatedEventSealView;

    open spec fn view(&self) -> DelegatedEventSealView {
        DelegatedEventSealView {
            prefix: self.prefix@,
            sn: self.sn,
            event_digest: self.event_digest@,
        }
    }
}

impl Clone for DelegatedEventSeal {
    fn clone(&self) -> (res: Self)
        ensures
            res@ == self@,
    {
        DelegatedEventSeal {
            prefix: self.prefix.clone(),
            sn: self.sn,
            event_digest: self.event_digest.clone(),
        }
    }
}

/// The seal by which a delegated event names the place of its approval in the log of its delegator.
#[derive(Debug)]
pub struct DelegatingLocationSeal {
    /// The identifier that the seal refers to.
    pub prefix: IdentifierPrefix,
    /// The sequence number of the event referred to.
    pub sn: u64,
    /// The kind of the event referred to.
    pub ilk: String,
    /// The digest of the event before the one referred to.
    pub prior_digest: SelfAddressingPrefix,
}

/// A `DelegatingLocationSeal` as contracts speak of it: its fields by their views.
pub struct DelegatingLocationSealView {
    pub prefix: IdentifierPrefixView,
    pub sn: u64,
    pub ilk: Seq<char>,
    pub prior_digest: Material<SelfAddressing>,
}

impl View for DelegatingLocationSeal {
    type V = DelegatingLocationSealView;

    open spec fn view(&self) -> DelegatingLocationSealView {
        DelegatingLocationSealView {
            prefix: self.prefix@,
            sn: self.sn,
            ilk: self.ilk@,
            prior_digest: self.prior_digest@,
        }
    }
}

impl Clone for DelegatingLocationSeal {
    fn clone(&self) -> (res: Self)
        ensures
            res@ == self@,
    {
        DelegatingLocationSeal {
            prefix: self.prefix.clone(),
            sn: self.sn,
            ilk: self.ilk.clone(),
            prior_digest: self.prior_digest.clone(),
        }
    }
}

/// An anchor from an event to other data or to another event.
#[derive(Debug, PartialEq)]
pub enum Seal {
    Digest(DigestSeal),
    Root(RootSeal),
    Event(EventSeal),
    Location(LocationSeal),
}

/// A `Seal` as contracts speak of it: its fields by their views.
pub enum SealView {
    Digest(DigestSealView),
    Root(RootSealView),
    Event(EventSealView),
    Location(LocationSealView),
}

impl View for Seal {
    type V = SealView;

    open spec fn view(&self) -> SealView {
        match self {
            Seal::Digest(seal) => SealView::Digest(seal@),
            Seal::Root(seal) => SealView::Root(seal@),
            Seal::Event(seal) => SealView::Event(seal@),
            Seal::Location(seal) => SealView::Location(seal@),
        }
    }
}

impl Clone for Seal {
    fn clone(&self) -> (res: Self)
        ensures
            res@ == self@,
    {
        match self {
            Seal::Digest(seal) => Seal::Digest(seal.clone()),
            Seal::Root(seal) => Seal::Root(seal.clone()),
            Seal::Event(seal) => Seal::Event(seal.clone()),
            Seal::Location(seal) => Seal::Location(seal.clone()),
        }
    }
}

impl SealView {
    /// Whether every prefix is short enough to be written as text on this machine.
    pub open spec fn encodable(self) -> bool {
        match self {
            SealView::Digest(seal) => seal.encodable(),
            SealView::Root(seal) => seal.encodable(),
            SealView::Event(seal) => seal.encodable(),
            SealView::Location(seal) => seal.encodable(),
        }
    }

    /// Whether the text of every prefix reads back as the prefix.
    pub open spec fn readable(self) -> bool {
        match self {
            SealView::Digest(seal) => seal.readable(),
            SealView::Root(seal) => seal.readable(),
            SealView::Event(seal) => seal.readable(),
            SealView::Location(seal) => seal.readable(),
        }
    }

    /// The name of the kind of seal.
    pub open spec fn tag(self) -> Seq<char> {
        match self {
            SealView::Digest(_) => "digest"@,
            SealView::Root(_) => "root"@,
            SealView::Event(_) => "event"@,
            SealView::Location(_) => "location"@,
        }
    }

    /// The seal as a record: the name of its kind under `seal`, then its values.
    pub open spec fn entries(self) -> Seq<EntryView> {
        seq![EntryView { name: "seal"@, text: self.tag() }] + match self {
            SealView::Digest(seal) => seal.entries(),
            SealView::Root(seal) => seal.entries(),
            SealView::Event(seal) => seal.entries(),
            SealView::Location(seal) => seal.entries(),
        }
    }

    /// The names of the entries of a seal of the kind named `tag`, in the
    /// order in which they are written.
    pub open spec fn names(tag: Seq<char>) -> Option<Seq<Seq<char>>> {
        if tag == "digest"@ {
            Some(seq!["seal"@, "dig"@])
        } else if tag == "root"@ {
            Some(seq!["seal"@, "root"@])
        } else if tag == "event"@ {
            Some(seq!["seal"@, "pre"@, "dig"@])
        } else if tag == "location"@ {
            Some(seq!["seal"@, "pre"@, "sn"@, "ilk"@, "dig"@])
        } else {
            None
        }
    }

    /// The seal that a record stands for, its entries in any order: the
    /// entry named `seal` names the kind, and the entries of that kind are
    /// found by their names. Entries of other names are passed over.
    pub open spec fn read(entries: Seq<EntryView>) -> Result<SealView, Failure> {
        match place_from(entry_names(entries), "seal"@, 0) {
            None => Err(Failure::Deserialization),
            Some(place) => match Self::names(entries[place].text) {
                None => Err(Failure::Deserialization),
                Some(names) => match arranged(entries, entry_names(entries), names) {
                    None => Err(Failure::Deserialization),
                    Some(ordered) => Self::decoded(ordered),
                },
            },
        }
    }

    /// A seal whose prefixes read back reads back from its record by the
    /// names of the entries.
    pub proof fn lemma_read_back(self)
        requires
            self.readable(),
        ensures
            Self::read(self.entries()) == Ok::<SealView, Failure>(self),
    {
        reveal_strlit("digest");
        reveal_strlit("root");
        reveal_strlit("event");
        reveal_strlit("location");
        assert("digest"@.len() == 6 && "root"@.len() == 4 && "event"@.len() == 5 && "location"@.len()
            == 8);
        lemma_names();
        let entries = self.entries();
        let have = entry_names(entries);
        assert(entries[0] == (EntryView { name: "seal"@, text: self.tag() }));
        assert(have[0] == "seal"@);
        let names = Self::names(self.tag())->Some_0;
        assert(have =~= names);
        lemma_arranged_as_it_stands(entries, have, names);
        assert(entries.take(names.len() as int) =~= entries);
        self.lemma_reads_back();
    }

    /// The seal that a record stands for: the first entry names the kind,
    /// the others hold the values of that kind and nothing more.
    pub open spec fn decoded(entries: Seq<EntryView>) -> Result<SealView, Failure> {
        match entry_at(entries, 0, "seal"@) {
            Err(failure) => Err(failure),
            Ok(tag) => if tag == "digest"@ {
                if entries.len() != 2 {
                    Err(Failure::Deserialization)
                } else {
                    match DigestSealView::decoded(entries, 1) {
                        Ok(seal) => Ok(SealView::Digest(seal)),
                        Err(failure) => Err(failure),
                    }
                }
            } else if tag == "root"@ {
                if entries.len() != 2 {
                    Err(Failure::Deserialization)
                } else {
                    match RootSealView::decoded(entries, 1) {
                        Ok(seal) => Ok(SealView::Root(seal)),
                        Err(failure) => Err(failure),
                    }
                }
            } else if tag == "event"@ {
                if entries.len() != 3 {
                    Err(Failure::Deserialization)
                } else {
                    match EventSealView::decoded(entries, 1) {
                        Ok(seal) => Ok(SealView::Event(seal)),
                        Err(failure) => Err(failure),
                    }
                }
            } else if tag == "location"@ {
                if entries.len() != 5 {
                    Err(Failure::Deserialization)
                } else {
                    match LocationSealView::decoded(entries, 1) {
                        Ok(seal) => Ok(SealView::Location(seal)),
                        Err(failure) => Err(failure),
                    }
                }
            } else {
                Err(Failure::Deserialization)
            },
        }
    }

    /// A seal whose prefixes read back reads back from its record.
    pub proof fn lemma_reads_back(self)
        requires
            self.readable(),
        ensures
            Self::decoded(self.entries()) == Ok::<SealView, Failure>(self),
    {
        reveal_strlit("digest");
        reveal_strlit("root");
        reveal_strlit("event");
        reveal_strlit("location");
        assert("digest"@.len() == 6 && "root"@.len() == 4 && "event"@.len() == 5 && "location"@.len()
            == 8);
        let entries = self.entries();
        assert(entries[0] == (EntryView { name: "seal"@, text: self.tag() }));
        match self {
            SealView::Digest(seal) => {
                assert(entries =~= seq![EntryView { name: "seal"@, text: self.tag() }]
                    + seal.entries());
                assert(entries.len() == 2);
                assert forall|j: int| 0 <= j < 1 implies entries[1 + j] == seal.entries()[j] by {}
                seal.lemma_reads_back(entries, 1);
                assert(DigestSealView::decoded(entries, 1) == Ok::<DigestSealView, Failure>(seal));
                assert(entry_at(entries, 0, "seal"@) == Ok::<Seq<char>, Failure>(self.tag()));
            },
            SealView::Root(seal) => {
                assert(entries =~= seq![EntryView { name: "seal"@, text: self.tag() }]
                    + seal.entries());
                assert(entries.len() == 2);
                assert forall|j: int| 0 <= j < 1 implies entries[1 + j] == seal.entries()[j] by {}
                seal.lemma_reads_back(entries, 1);
                assert(RootSealView::decoded(entries, 1) == Ok::<RootSealView, Failure>(seal));
                assert(entry_at(entries, 0, "seal"@) == Ok::<Seq<char>, Failure>(self.tag()));
            },
            SealView::Event(seal) => {
                assert(entries =~= seq![EntryView { name: "seal"@, text: self.tag() }]
                    + seal.entries());
                assert(entries.len() == 3);
                assert forall|j: int| 0 <= j < 2 implies entries[1 + j] == seal.entries()[j] by {}
                seal.lemma_reads_back(entries, 1);
                assert(EventSealView::decoded(entries, 1) == Ok::<EventSealView, Failure>(seal));
                assert(entry_at(entries, 0, "seal"@) == Ok::<Seq<char>, Failure>(self.tag()));
            },
            SealView::Location(seal) => {
                assert(entries =~= seq![EntryView { name: "seal"@, text: self.tag() }]
                    + seal.entries());
                assert(entries.len() == 5);
                assert forall|j: int| 0 <= j < 4 implies entries[1 + j] == seal.entries()[j] by {}
                seal.lemma_reads_back(entries, 1);
                assert(LocationSealView::decoded(entries, 1) == Ok::<LocationSealView, Failure>(seal));
                assert(entry_at(entries, 0, "seal"@) == Ok::<Seq<char>, Failure>(self.tag()));
            },
        }
    }
}

impl Seal {
    /// Whether every prefix is short enough to be written as text on this machine.
    pub fn is_encodable(&self) -> (ok: bool)
        ensures
            ok == self@.encodable(),
    {
        match self {
            Seal::Digest(seal) => seal.is_encodable(),
            Seal::Root(seal) => seal.is_encodable(),
            Seal::Event(seal) => seal.is_encodable(),
            Seal::Location(seal) => seal.is_encodable(),
        }
    }

    /// Writes the seal as a record.
    pub fn to_record(&self) -> (record: Record)
        requires
            self@.encodable(),
        ensures
            record@ == self@.entries(),
            self@.readable(),
    {
        let (tag, inner) = match self {
            Seal::Digest(seal) => ("digest", seal.to_record()),
            Seal::Root(seal) => ("root", seal.to_record()),
            Seal::Event(seal) => ("event", seal.to_record()),
            Seal::Location(seal) => ("location", seal.to_record()),
        };
        let mut entries: Vec<Entry> = Vec::new();
        entries.push(Entry::new("seal", String::from_str(tag)));
        let mut rest = inner.entries;
        entries.append(&mut rest);
        let record = Record { entries };
        assert(record@ =~= self@.entries());
        record
    }

    /// The names of the entries of a seal of the kind named `tag`.
    fn names(tag: &String) -> (res: Option<Vec<String>>)
        ensures
            match res {
                Some(names) => SealView::names(tag@) == Some(views(names@)),
                None => SealView::names(tag@) is None,
            },
    {
        let names = if *tag == String::from_str("digest") {
            names_of(&["seal", "dig"])
        } else if *tag == String::from_str("root") {
            names_of(&["seal", "root"])
        } else if *tag == String::from_str("event") {
            names_of(&["seal", "pre", "dig"])
        } else if *tag == String::from_str("location") {
            names_of(&["seal", "pre", "sn", "ilk", "dig"])
        } else {
            return None;
        };
        assert(views(names@) =~= SealView::names(tag@)->Some_0);
        Some(names)
    }

    /// Reads the seal from a record, its entries in any order.
    ///
    /// Fails with `DeserializationError` where the record does not name a
    /// kind of seal under `seal` or lacks an entry of that kind, and with
    /// the error of the value that cannot be read.
    pub fn from_record(record: &Record) -> (res: Result<Seal, Error>)
        ensures
            outcome(res) == SealView::read(record@),
    {
        let place = match find_entry(record, &String::from_str("seal")) {
            Some(place) => place,
            None => {
                return Err(Error::DeserializationError);
            },
        };
        assert(record@[place as int] == record.entries@[place as int]@);
        let names = match Self::names(&record.entries[place].text) {
            Some(names) => names,
            None => {
                return Err(Error::DeserializationError);
            },
        };
        match arrange_entries(record, &names) {
            Some(ordered) => Self::from_ordered(&ordered),
            None => Err(Error::DeserializationError),
        }
    }

    /// Reads the seal from a record whose entries stand in the order in
    /// which they are written.
    fn from_ordered(record: &Record) -> (res: Result<Seal, Error>)
        ensures
            outcome(res) == SealView::decoded(record@),
    {
        let tag = match read_entry_at(record, 0, "seal") {
            Ok(tag) => tag,
            Err(e) => {
                return Err(e);
            },
        };
        if *tag == String::from_str("digest") {
            if record.entries.len() != 2 {
                return Err(Error::DeserializationError);
            }
            match DigestSeal::decode(record, 1) {
                Ok(seal) => Ok(Seal::Digest(seal)),
                Err(e) => Err(e),
            }
        } else if *tag == String::from_str("root") {
            if record.entries.len() != 2 {
                return Err(Error::DeserializationError);
            }
            match RootSeal::decode(record, 1) {
                Ok(seal) => Ok(Seal::Root(seal)),
                Err(e) => Err(e),
            }
        } else if *tag == String::from_str("event") {
            if record.entries.len() != 3 {
                return Err(Error::DeserializationError);
            }
            match EventSeal::decode(record, 1) {
                Ok(seal) => Ok(Seal::Event(seal)),
                Err(e) => Err(e),
            }
        } else if *tag == String::from_str("location") {
            if record.entries.len() != 5 {
                return Err(Error::DeserializationError);
            }
            match LocationSeal::decode(record, 1) {
                Ok(seal) => Ok(Seal::Location(seal)),
                Err(e) => Err(e),
            }
        } else {
            Err(Error::DeserializationError)
        }
    }
}

/// The records of a list of seals, in order.
pub open spec fn seal_records(seals: Seq<SealView>) -> Seq<Seq<EntryView>> {
    Seq::new(seals.len(), |i: int| seals[i].entries())
}

/// Whether every seal of a list can be written as text on this machine.
pub open spec fn seals_encodable(seals: Seq<SealView>) -> bool {
    forall|i: int| 0 <= i < seals.len() ==> (#[trigger] seals[i]).encodable()
}

/// Whether every seal of a list reads back from its record.
pub open spec fn seals_readable(seals: Seq<SealView>) -> bool {
    forall|i: int| 0 <= i < seals.len() ==> (#[trigger] seals[i]).readable()
}

/// How the record of a seal is read.
pub open spec fn seal_parser() -> spec_fn(Seq<EntryView>) -> Result<SealView, Failure> {
    |entries: Seq<EntryView>| SealView::read(entries)
}

/// Seals whose prefixes read back read back from their records.
pub proof fn lemma_seals_read_back(seals: Seq<SealView>)
    requires
        seals_readable(seals),
    ensures
        parsed_all(seal_records(seals), seal_parser()) == Ok::<Seq<SealView>, Failure>(seals),
{
    assert forall|i: int| 0 <= i < seals.len() implies seal_parser()(
        #[trigger] seal_records(seals)[i],
    ) == Ok::<SealView, Failure>(seals[i]) by {
        assert(seals[i].readable());
        seals[i].lemma_read_back();
    }
    lemma_parsed_all_reads_back(seal_records(seals), seals, seal_parser());
}

/// Whether every seal of a list can be written as text on this machine.
pub fn are_seals_encodable(items: &Vec<Seal>) -> (ok: bool)
    ensures
        ok == seals_encodable(views(items@)),
{
    let mut i: usize = 0;
    while i < items.len()
        invariant
            i <= items.len(),
            forall|j: int| 0 <= j < i ==> (#[trigger] views(items@)[j]).encodable(),
        decreases items.len() - i,
    {
        if !items[i].is_encodable() {
            assert(!views(items@)[i as int].encodable());
            return false;
        }
        i = i + 1;
    }
    true
}

/// Writes each seal of a list as a record.
pub fn write_seal_records(seals: &Vec<Seal>) -> (records: Vec<Record>)
    requires
        seals_encodable(views(seals@)),
    ensures
        views(records@) == seal_records(views(seals@)),
        seals_readable(views(seals@)),
{
    let mut records: Vec<Record> = Vec::new();
    let mut i: usize = 0;
    while i < seals.len()
        invariant
            i <= seals.len(),
            seals_encodable(views(seals@)),
            records@.len() == i,
            forall|j: int| 0 <= j < i ==> (#[trigger] records@[j])@ == seals@[j]@.entries(),
            forall|j: int| 0 <= j < i ==> (#[trigger] views(seals@)[j]).readable(),
        decreases seals.len() - i,
    {
        assert(views(seals@)[i as int].encodable());
        records.push(seals[i].to_record());
        i = i + 1;
    }
    assert(views(records@) =~= seal_records(views(seals@)));
    records
}

/// Reads each record of a list as a seal; the first record that cannot be
/// read ends the reading with its error.
pub fn read_seal_records(records: &Vec<Record>) -> (res: Result<Vec<Seal>, Error>)
    ensures
        match res {
            Ok(seals) => parsed_all(views(records@), seal_parser()) == Ok::<Seq<SealView>, Failure>(
                views(seals@),
            ),
            Err(e) => parsed_all(views(records@), seal_parser()) == Err::<Seq<SealView>, Failure>(
                e@,
            ),
        },
{
    let mut seals: Vec<Seal> = Vec::new();
    let ghost all = views(records@);
    let mut i: usize = 0;
    assert(views(seals@) =~= Seq::<SealView>::empty());
    while i < records.len()
        invariant
            i <= records.len(),
            all == views(records@),
            parsed_all(all.take(i as int), seal_parser()) == Ok::<Seq<SealView>, Failure>(
                views(seals@),
            ),
        decreases records.len() - i,
    {
        assert(all.take(i + 1).drop_last() =~= all.take(i as int));
        assert(all.take(i + 1).last() == records@[i as int]@);
        match Seal::from_record(&records[i]) {
            Ok(seal) => {
                push_item(&mut seals, seal);
            },
            Err(e) => {
                proof {
                    lemma_parsed_all_final(all, seal_parser(), i + 1);
                }
                return Err(e);
            },
        }
        i = i + 1;
    }
    assert(all.take(all.len() as int) =~= all);
    Ok(seals)
}

} // verus!
