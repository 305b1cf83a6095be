use crate::derivation::basic::Basic;
use crate::derivation::self_addressing::SelfAddressing;
use crate::error::outcome;
use crate::error::Error;
use crate::error::Failure;
use crate::event::sections::seal::read_seal_records;
use crate::event::sections::seal::seal_parser;
use crate::event::sections::seal::DelegatingEventSeal;
use crate::event::sections::seal::DelegatingEventSealView;
use crate::event::sections::seal::Seal;
use crate::event::sections::seal::SealView;
use crate::prefix::basic_parser;
use crate::prefix::identifier_parser;
use crate::prefix::read_basic_texts;
use crate::prefix::read_identifier_texts;
use crate::prefix::BasicPrefix;
use crate::prefix::IdentifierPrefix;
use crate::prefix::IdentifierPrefixView;
use crate::prefix::Material;
use crate::prefix::SelfAddressingPrefix;
use crate::util::document::entry_names;
use crate::util::document::Document;
use crate::util::document::EntryView;
use crate::util::document::FieldView;
use crate::util::document::Value;
use crate::util::reading::arrange_entries;
use crate::util::reading::arranged;
use crate::util::reading::lemma_arranged_as_it_stands;
use crate::util::reading::list_at;
use crate::util::reading::names_of;
use crate::util::reading::parsed_all;
use crate::util::reading::read_list_at;
use crate::util::reading::read_record_at;
use crate::util::reading::read_text_at;
use crate::util::reading::record_at;
use crate::util::reading::records_at;
use crate::util::reading::text_at;
use crate::util::sequence::clone_items;
use crate::util::sequence::views;
use vstd::prelude::*;
use vstd::string::StringExecFns;

verus! {

/// What is known of the names under which values are written: how long
/// each is and how it starts. No two of them are the same.
pub proof fn lemma_names()
    ensures
        "vs"@.len() == 2 && "vs"@[0] == 'v',
        "sn"@.len() == 2 && "sn"@[0] == 's',
        "pre"@.len() == 3 && "pre"@[0] == 'p',
        "ilk"@.len() == 3 && "ilk"@[0] == 'i',
        "dig"@.len() == 3 && "dig"@[0] == 'd',
        "nxt"@.len() == 3 && "nxt"@[0] == 'n',
        "sith"@.len() == 4 && "sith"@[0] == 's' && "sith"@[1] == 'i',
        "keys"@.len() == 4 && "keys"@[0] == 'k',
        "toad"@.len() == 4 && "toad"@[0] == 't',
        "wits"@.len() == 4 && "wits"@[0] == 'w',
        "cnfg"@.len() == 4 && "cnfg"@[0] == 'c' && "cnfg"@[1] == 'n',
        "cuts"@.len() == 4 && "cuts"@[0] == 'c' && "cuts"@[1] == 'u',
        "adds"@.len() == 4 && "adds"@[0] == 'a',
        "data"@.len() == 4 && "data"@[0] == 'd',
        "seal"@.len() == 4 && "seal"@[0] == 's' && "seal"@[1] == 'e',
        "root"@.len() == 4 && "root"@[0] == 'r',
{
    reveal_strlit("vs");
    reveal_strlit("sn");
    reveal_strlit("pre");
    reveal_strlit("ilk");
    reveal_strlit("dig");
    reveal_strlit("nxt");
    reveal_strlit("sith");
    reveal_strlit("keys");
    reveal_strlit("toad");
    reveal_strlit("wits");
    reveal_strlit("cnfg");
    reveal_strlit("cuts");
    reveal_strlit("adds");
    reveal_strlit("data");
    reveal_strlit("seal");
    reveal_strlit("root");
}

/// The names of the entries of a delegating seal, in the order in which
/// they are written.
pub open spec fn delegating_names() -> Seq<Seq<char>> {
    seq!["pre"@, "dig"@]
}

/// The entries of a delegating seal are arranged as they stand.
pub proof fn lemma_delegating_entries(seal: DelegatingEventSealView)
    ensures
        arranged(seal.entries(), entry_names(seal.entries()), delegating_names()) == Some(
            seal.entries(),
        ),
{
    lemma_names();
    let entries = seal.entries();
    assert(entry_names(entries) =~= delegating_names());
    lemma_arranged_as_it_stands(entries, entry_names(entries), delegating_names());
    assert(entries.take(2) =~= entries);
}

/// The digest of the field at place `k`, which must have the given name.
pub open spec fn digest_at(document: Seq<FieldView>, k: int, name: Seq<char>) -> Result<
    Material<SelfAddressing>,
    Failure,
> {
    match text_at(document, k, name) {
        Ok(text) => Material::<SelfAddressing>::parse(text),
        Err(failure) => Err(failure),
    }
}

/// The identifier of the field at place `k`, which must have the given name.
pub open spec fn identifier_at(document: Seq<FieldView>, k: int, name: Seq<char>) -> Result<
    IdentifierPrefixView,
    Failure,
> {
    match text_at(document, k, name) {
        Ok(text) => IdentifierPrefixView::parse(text),
        Err(failure) => Err(failure),
    }
}

/// The public keys of the field at place `k`, which must have the given name.
pub open spec fn basics_at(document: Seq<FieldView>, k: int, name: Seq<char>) -> Result<
    Seq<Material<Basic>>,
    Failure,
> {
    match list_at(document, k, name) {
        Ok(texts) => parsed_all(texts, basic_parser()),
        Err(failure) => Err(failure),
    }
}

/// The identifiers of the field at place `k`, which must have the given name.
pub open spec fn identifiers_at(document: Seq<FieldView>, k: int, name: Seq<char>) -> Result<
    Seq<IdentifierPrefixView>,
    Failure,
> {
    match list_at(document, k, name) {
        Ok(texts) => parsed_all(texts, identifier_parser()),
        Err(failure) => Err(failure),
    }
}

/// The seals of the field at place `k`, which must have the given name.
pub open spec fn seals_at(document: Seq<FieldView>, k: int, name: Seq<char>) -> Result<
    Seq<SealView>,
    Failure,
> {
    match records_at(document, k, name) {
        Ok(records) => parsed_all(records, seal_parser()),
        Err(failure) => Err(failure),
    }
}

/// The delegating seal of the field at place `k`, which must have the given name.
pub open spec fn delegating_seal_at(document: Seq<FieldView>, k: int, name: Seq<char>) -> Result<
    DelegatingEventSealView,
    Failure,
> {
    match record_at(document, k, name) {
        Ok(entries) => match arranged(entries, entry_names(entries), delegating_names()) {
            Some(ordered) => DelegatingEventSealView::decoded_record(ordered),
            None => Err(Failure::Deserialization),
        },
        Err(failure) => Err(failure),
    }
}

/// Reads the digest of the field at place `k`, which must have the given name.
pub fn read_digest_at(document: &Document, k: usize, name: &str) -> (res: Result<
    SelfAddressingPrefix,
    Error,
>)
    ensures
        outcome(res) == digest_at(document@, k as int, name@),
{
    match read_text_at(document, k, name) {
        Ok(text) => SelfAddressingPrefix::from_str(text.as_str()),
        Err(e) => Err(e),
    }
}

/// Reads the identifier of the field at place `k`, which must have the given name.
pub fn read_identifier_at(document: &Document, k: usize, name: &str) -> (res: Result<
    IdentifierPrefix,
    Error,
>)
    ensures
        outcome(res) == identifier_at(document@, k as int, name@),
{
    match read_text_at(document, k, name) {
        Ok(text) => IdentifierPrefix::from_str(text.as_str()),
        Err(e) => Err(e),
    }
}

/// Reads the public keys of the field at place `k`, which must have the given name.
pub fn read_basics_at(document: &Document, k: usize, name: &str) -> (res: Result<
    Vec<BasicPrefix>,
    Error,
>)
    ensures
        match res {
            Ok(keys) => basics_at(document@, k as int, name@) == Ok::<
                Seq<Material<Basic>>,
                Failure,
            >(views(keys@)),
            Err(e) => basics_at(document@, k as int, name@) == Err::<Seq<Material<Basic>>, Failure>(
                e@,
            ),
        },
{
    match read_list_at(document, k, name) {
        Ok(texts) => read_basic_texts(texts),
        Err(e) => Err(e),
    }
}

/// Reads the identifiers of the field at place `k`, which must have the given name.
pub fn read_identifiers_at(document: &Document, k: usize, name: &str) -> (res: Result<
    Vec<IdentifierPrefix>,
    Error,
>)
    ensures
        match res {
            Ok(prefixes) => identifiers_at(document@, k as int, name@) == Ok::<
                Seq<IdentifierPrefixView>,
                Failure,
            >(views(prefixes@)),
            Err(e) => identifiers_at(document@, k as int, name@) == Err::<
                Seq<IdentifierPrefixView>,
                Failure,
            >(e@),
        },
{
    match read_list_at(document, k, name) {
        Ok(texts) => read_identifier_texts(texts),
        Err(e) => Err(e),
    }
}

/// Reads the texts of the field at place `k`, which must have the given name.
pub fn read_texts_at(document: &Document, k: usize, name: &str) -> (res: Result<
    Vec<String>,
    Error,
>)
    ensures
        match res {
            Ok(texts) => list_at(document@, k as int, name@) == Ok::<Seq<Seq<char>>, Failure>(
                views(texts@),
            ),
            Err(e) => list_at(document@, k as int, name@) == Err::<Seq<Seq<char>>, Failure>(e@),
        },
{
    match read_list_at(document, k, name) {
        Ok(texts) => Ok(clone_items(texts)),
        Err(e) => Err(e),
    }
}

/// Reads the seals of the field at place `k`, which must have the given name.
pub fn read_seals_at(document: &Document, k: usize, name: &str) -> (res: Result<Vec<Seal>, Error>)
    ensures
        match res {
            Ok(seals) => seals_at(document@, k as int, name@) == Ok::<Seq<SealView>, Failure>(
                views(seals@),
            ),
            Err(e) => seals_at(document@, k as int, name@) == Err::<Seq<SealView>, Failure>(e@),
        },
{
    if k >= document.fields.len() || document.fields[k].name != String::from_str(name) {
        return Err(Error::DeserializationError);
    }
    match &document.fields[k].value {
        Value::Records(records) => read_seal_records(records),
        Value::List(items) => {
            if items.len() == 0 {
                let seals: Vec<Seal> = Vec::new();
                assert(views(seals@) =~= Seq::<SealView>::empty());
                assert(views(items@) =~= Seq::<Seq<char>>::empty());
                Ok(seals)
            } else {
                Err(Error::DeserializationError)
            }
        },
        _ => Err(Error::DeserializationError),
    }
}

/// Reads the delegating seal of the field at place `k`, which must have the given name.
pub fn read_delegating_seal_at(document: &Document, k: usize, name: &str) -> (res: Result<
    DelegatingEventSeal,
    Error,
>)
    ensures
        outcome(res) == delegating_seal_at(document@, k as int, name@),
{
    match read_record_at(document, k, name) {
        Ok(record) => {
            let names = names_of(&["pre", "dig"]);
            assert(views(names@) =~= delegating_names());
            match arrange_entries(record, &names) {
                Some(ordered) => DelegatingEventSeal::from_record(&ordered),
                None => Err(Error::DeserializationError),
            }
        },
        Err(e) => Err(e),
    }
}

} // verus!
