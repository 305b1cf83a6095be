use crate::error::outcome;
use crate::error::Error;
use crate::error::Failure;
use crate::util::document::entry_names;
use crate::util::document::field_names;
use crate::util::document::Document;
use crate::util::document::Entry;
use crate::util::document::Field;
use crate::util::document::EntryView;
use crate::util::document::FieldView;
use crate::util::document::Record;
use crate::util::document::Value;
use crate::util::document::ValueView;
use crate::util::sequence::push_item;
use crate::util::sequence::views;
use crate::util::text::hex_value;
use crate::util::text::lemma_hex_value_bound;
use crate::util::text::read_hex;
use vstd::prelude::*;
use vstd::string::StringExecFns;

verus! {

/// The items that a list of texts or records stands for, each read by
/// `parse` in order: the first that cannot be read decides.
pub open spec fn parsed_all<A, T>(
    items: Seq<A>,
    parse: spec_fn(A) -> Result<T, Failure>,
) -> Result<Seq<T>, Failure>
    decreases items.len(),
{
    if items.len() == 0 {
        Ok(Seq::empty())
    } else {
        match parsed_all(items.drop_last(), parse) {
            Ok(done) => match parse(items.last()) {
                Ok(item) => Ok(done.push(item)),
                Err(failure) => Err(failure),
            },
            Err(failure) => Err(failure),
        }
    }
}

/// Once an item cannot be read, those after it change nothing.
pub proof fn lemma_parsed_all_final<A, T>(
    items: Seq<A>,
    parse: spec_fn(A) -> Result<T, Failure>,
    n: int,
)
    requires
        0 <= n <= items.len(),
        parsed_all(items.take(n), parse) is Err,
    ensures
        parsed_all(items, parse) == parsed_all(items.take(n), parse),
    decreases items.len() - n,
{
    if n < items.len() {
        assert(items.take(n + 1).drop_last() =~= items.take(n));
        lemma_parsed_all_final(items, parse, n + 1);
    } else {
        assert(items.take(n) =~= items);
    }
}

/// Where each text reads as the item in its place, the list reads as the items.
pub proof fn lemma_parsed_all_reads_back<A, T>(
    texts: Seq<A>,
    items: Seq<T>,
    parse: spec_fn(A) -> Result<T, Failure>,
)
    requires
        texts.len() == items.len(),
        forall|i: int| 0 <= i < texts.len() ==> parse(#[trigger] texts[i]) == Ok::<T, Failure>(items[i]),
    ensures
        parsed_all(texts, parse) == Ok::<Seq<T>, Failure>(items),
    decreases texts.len(),
{
    if texts.len() > 0 {
        lemma_parsed_all_reads_back(texts.drop_last(), items.drop_last(), parse);
        assert(parse(texts[texts.len() - 1]) == Ok::<T, Failure>(items[texts.len() - 1]));
        assert(items.drop_last().push(items.last()) =~= items);
    } else {
        assert(items =~= Seq::<T>::empty());
    }
}

/// The text of the field at place `k`, which must have the given name.
pub open spec fn text_at(document: Seq<FieldView>, k: int, name: Seq<char>) -> Result<
    Seq<char>,
    Failure,
> {
    if 0 <= k < document.len() && document[k].name == name {
        match document[k].value {
            ValueView::Text(text) => Ok(text),
            _ => Err(Failure::Deserialization),
        }
    } else {
        Err(Failure::Deserialization)
    }
}

/// The list of texts of the field at place `k`, which must have the given name.
pub open spec fn list_at(document: Seq<FieldView>, k: int, name: Seq<char>) -> Result<
    Seq<Seq<char>>,
    Failure,
> {
    if 0 <= k < document.len() && document[k].name == name {
        match document[k].value {
            ValueView::List(items) => Ok(items),
            _ => Err(Failure::Deserialization),
        }
    } else {
        Err(Failure::Deserialization)
    }
}

/// The record of the field at place `k`, which must have the given name.
pub open spec fn record_at(document: Seq<FieldView>, k: int, name: Seq<char>) -> Result<
    Seq<EntryView>,
    Failure,
> {
    if 0 <= k < document.len() && document[k].name == name {
        match document[k].value {
            ValueView::Record(entries) => Ok(entries),
            _ => Err(Failure::Deserialization),
        }
    } else {
        Err(Failure::Deserialization)
    }
}

/// The list of records of the field at place `k`, which must have the given
/// name. An empty list of texts stands for no records.
pub open spec fn records_at(document: Seq<FieldView>, k: int, name: Seq<char>) -> Result<
    Seq<Seq<EntryView>>,
    Failure,
> {
    if 0 <= k < document.len() && document[k].name == name {
        match document[k].value {
            ValueView::Records(records) => Ok(records),
            ValueView::List(items) => if items.len() == 0 {
                Ok(Seq::empty())
            } else {
                Err(Failure::Deserialization)
            },
            _ => Err(Failure::Deserialization),
        }
    } else {
        Err(Failure::Deserialization)
    }
}

/// The text of the entry at place `k` of a record, which must have the given name.
pub open spec fn entry_at(entries: Seq<EntryView>, k: int, name: Seq<char>) -> Result<
    Seq<char>,
    Failure,
> {
    if 0 <= k < entries.len() && entries[k].name == name {
        Ok(entries[k].text)
    } else {
        Err(Failure::Deserialization)
    }
}

/// The number that a text of hexadecimal digits stands for.
pub open spec fn number_of(text: Seq<char>) -> Result<u64, Failure> {
    match hex_value(text) {
        Some(value) => Ok(value as u64),
        None => Err(Failure::IntegerParse),
    }
}

/// The number of the field at place `k`, which must have the given name.
pub open spec fn number_at(document: Seq<FieldView>, k: int, name: Seq<char>) -> Result<
    u64,
    Failure,
> {
    match text_at(document, k, name) {
        Ok(text) => number_of(text),
        Err(failure) => Err(failure),
    }
}

/// The number of the entry at place `k` of a record, which must have the given name.
pub open spec fn entry_number_at(entries: Seq<EntryView>, k: int, name: Seq<char>) -> Result<
    u64,
    Failure,
> {
    match entry_at(entries, k, name) {
        Ok(text) => number_of(text),
        Err(failure) => Err(failure),
    }
}

/// Reads a number from hexadecimal digits; fails with `IntegerParseValue`
/// where the text is not one to sixteen lower-case hexadecimal digits.
pub fn read_number(text: &str) -> (res: Result<u64, Error>)
    ensures
        outcome(res) == number_of(text@),
{
    match read_hex(text) {
        Some(value) => Ok(value),
        None => Err(Error::IntegerParseValue),
    }
}

/// The text of the field at place `k`, which must have the given name;
/// fails with `DeserializationError` where there is no such field.
pub fn read_text_at<'a>(document: &'a Document, k: usize, name: &str) -> (res: Result<
    &'a String,
    Error,
>)
    ensures
        match res {
            Ok(text) => text_at(document@, k as int, name@) == Ok::<Seq<char>, Failure>(text@),
            Err(e) => text_at(document@, k as int, name@) == Err::<Seq<char>, Failure>(e@),
        },
{
    if k >= document.fields.len() || document.fields[k].name != String::from_str(name) {
        return Err(Error::DeserializationError);
    }
    match &document.fields[k].value {
        Value::Text(text) => Ok(text),
        _ => Err(Error::DeserializationError),
    }
}

/// The list of texts of the field at place `k`, which must have the given
/// name; fails with `DeserializationError` where there is no such field.
pub fn read_list_at<'a>(document: &'a Document, k: usize, name: &str) -> (res: Result<
    &'a Vec<String>,
    Error,
>)
    ensures
        match res {
            Ok(items) => list_at(document@, k as int, name@) == Ok::<Seq<Seq<char>>, Failure>(
                views(items@),
            ),
            Err(e) => list_at(document@, k as int, name@) == Err::<Seq<Seq<char>>, Failure>(e@),
        },
{
    if k >= document.fields.len() || document.fields[k].name != String::from_str(name) {
        return Err(Error::DeserializationError);
    }
    match &document.fields[k].value {
        Value::List(items) => Ok(items),
        _ => Err(Error::DeserializationError),
    }
}

/// The record of the field at place `k`, which must have the given name;
/// fails with `DeserializationError` where there is no such field.
pub fn read_record_at<'a>(document: &'a Document, k: usize, name: &str) -> (res: Result<
    &'a Record,
    Error,
>)
    ensures
        match res {
            Ok(record) => record_at(document@, k as int, name@) == Ok::<Seq<EntryView>, Failure>(
                record@,
            ),
            Err(e) => record_at(document@, k as int, name@) == Err::<Seq<EntryView>, Failure>(e@),
        },
{
    if k >= document.fields.len() || document.fields[k].name != String::from_str(name) {
        return Err(Error::DeserializationError);
    }
    match &document.fields[k].value {
        Value::Record(record) => Ok(record),
        _ => Err(Error::DeserializationError),
    }
}

/// The number of the field at place `k`, which must have the given name.
pub fn read_number_at(document: &Document, k: usize, name: &str) -> (res: Result<u64, Error>)
    ensures
        outcome(res) == number_at(document@, k as int, name@),
{
    match read_text_at(document, k, name) {
        Ok(text) => read_number(text.as_str()),
        Err(e) => Err(e),
    }
}

/// The text of the entry at place `k` of a record, which must have the
/// given name; fails with `DeserializationError` where there is no such entry.
pub fn read_entry_at<'a>(record: &'a Record, k: usize, name: &str) -> (res: Result<
    &'a String,
    Error,
>)
    ensures
        match res {
            Ok(text) => entry_at(record@, k as int, name@) == Ok::<Seq<char>, Failure>(text@),
            Err(e) => entry_at(record@, k as int, name@) == Err::<Seq<char>, Failure>(e@),
        },
{
    if k >= record.entries.len() || record.entries[k].name != String::from_str(name) {
        return Err(Error::DeserializationError);
    }
    Ok(&record.entries[k].text)
}

/// The number of the entry at place `k` of a record, which must have the given name.
pub fn read_entry_number_at(record: &Record, k: usize, name: &str) -> (res: Result<u64, Error>)
    ensures
        outcome(res) == entry_number_at(record@, k as int, name@),
{
    match read_entry_at(record, k, name) {
        Ok(text) => read_number(text.as_str()),
        Err(e) => Err(e),
    }
}

/// The first place from `i` on at which the given name stands.
pub open spec fn place_from(have: Seq<Seq<char>>, name: Seq<char>, i: int) -> Option<int>
    decreases have.len() - i,
{
    if i < 0 || i >= have.len() {
        None
    } else if have[i] == name {
        Some(i)
    } else {
        place_from(have, name, i + 1)
    }
}

/// The items that stand under the wanted names, in the order of those
/// names: for each name the first item that has it. `have` are the names of
/// the items. There is no arrangement where a wanted name is missing.
pub open spec fn arranged<T>(
    items: Seq<T>,
    have: Seq<Seq<char>>,
    wanted: Seq<Seq<char>>,
) -> Option<Seq<T>>
    decreases wanted.len(),
{
    if wanted.len() == 0 {
        Some(Seq::empty())
    } else {
        match arranged(items, have, wanted.drop_last()) {
            Some(head) => match place_from(have, wanted.last(), 0) {
                Some(i) => Some(head.push(items[i])),
                None => None,
            },
            None => None,
        }
    }
}

/// Whether no two names of a list are the same.
pub open spec fn distinct(names: Seq<Seq<char>>) -> bool {
    forall|a: int, b: int| 0 <= a < b < names.len() ==> names[a] != names[b]
}

/// A name is found at the first place at which it stands.
pub proof fn lemma_place_from(have: Seq<Seq<char>>, name: Seq<char>, i: int, place: int)
    requires
        0 <= i <= place < have.len(),
        have[place] == name,
        forall|j: int| i <= j < place ==> have[j] != name,
    ensures
        place_from(have, name, i) == Some(place),
    decreases place - i,
{
    if i < place {
        lemma_place_from(have, name, i + 1, place);
    }
}

/// What is found is a place at which the name stands.
pub proof fn lemma_place_found(have: Seq<Seq<char>>, name: Seq<char>, i: int)
    requires
        0 <= i,
    ensures
        place_from(have, name, i) matches Some(place) ==> i <= place < have.len() && have[place]
            == name,
    decreases have.len() - i,
{
    if i < have.len() && have[i] != name {
        lemma_place_found(have, name, i + 1);
    }
}

/// Items that stand in the order of the wanted names, under names of which
/// no two are the same, are arranged as they stand.
pub proof fn lemma_arranged_as_it_stands<T>(
    items: Seq<T>,
    have: Seq<Seq<char>>,
    wanted: Seq<Seq<char>>,
)
    requires
        items.len() == have.len(),
        wanted.len() <= have.len(),
        forall|j: int| 0 <= j < wanted.len() ==> have[j] == wanted[j],
        distinct(wanted),
    ensures
        arranged(items, have, wanted) == Some(items.take(wanted.len() as int)),
    decreases wanted.len(),
{
    if wanted.len() == 0 {
        assert(items.take(0) =~= Seq::<T>::empty());
    } else {
        let n = wanted.len() - 1;
        assert forall|a: int, b: int| 0 <= a < b < wanted.drop_last().len() implies wanted.drop_last()[a]
            != wanted.drop_last()[b] by {
            assert(wanted[a] != wanted[b]);
        }
        lemma_arranged_as_it_stands(items, have, wanted.drop_last());
        assert forall|j: int| 0 <= j < n implies have[j] != wanted.last() by {
            assert(wanted[j] != wanted[n]);
        }
        lemma_place_from(have, wanted.last(), 0, n);
        assert(items.take(n).push(items[n]) =~= items.take(wanted.len() as int));
    }
}

/// Once a wanted name is missing, the names after it change nothing.
pub proof fn lemma_arranged_final<T>(
    items: Seq<T>,
    have: Seq<Seq<char>>,
    wanted: Seq<Seq<char>>,
    n: int,
)
    requires
        0 <= n <= wanted.len(),
        arranged(items, have, wanted.take(n)) is None,
    ensures
        arranged(items, have, wanted) is None,
    decreases wanted.len() - n,
{
    if n < wanted.len() {
        assert(wanted.take(n + 1).drop_last() =~= wanted.take(n));
        lemma_arranged_final(items, have, wanted, n + 1);
    } else {
        assert(wanted.take(n) =~= wanted);
    }
}

/// The first place at which a field of the given name stands.
pub fn find_field(document: &Document, name: &String) -> (res: Option<usize>)
    ensures
        match res {
            Some(place) => place_from(field_names(document@), name@, 0) == Some(place as int)
                && place < document.fields.len(),
            None => place_from(field_names(document@), name@, 0) is None,
        },
{
    let mut i: usize = 0;
    while i < document.fields.len()
        invariant
            i <= document.fields.len(),
            document@.len() == document.fields.len(),
            place_from(field_names(document@), name@, 0) == place_from(
                field_names(document@),
                name@,
                i as int,
            ),
        decreases document.fields.len() - i,
    {
        assert(field_names(document@)[i as int] == document.fields@[i as int].name@);
        if document.fields[i].name == *name {
            return Some(i);
        }
        i = i + 1;
    }
    None
}

/// The first place at which an entry of the given name stands.
pub fn find_entry(record: &Record, name: &String) -> (res: Option<usize>)
    ensures
        match res {
            Some(place) => place_from(entry_names(record@), name@, 0) == Some(place as int)
                && place < record.entries.len(),
            None => place_from(entry_names(record@), name@, 0) is None,
        },
{
    let mut i: usize = 0;
    while i < record.entries.len()
        invariant
            i <= record.entries.len(),
            record@.len() == record.entries.len(),
            place_from(entry_names(record@), name@, 0) == place_from(
                entry_names(record@),
                name@,
                i as int,
            ),
        decreases record.entries.len() - i,
    {
        assert(entry_names(record@)[i as int] == record.entries@[i as int].name@);
        if record.entries[i].name == *name {
            return Some(i);
        }
        i = i + 1;
    }
    None
}

/// Puts the fields of a document in the order of the wanted names: for
/// each name the first field that has it. Fields of other names are left
/// out; there is no arrangement where a wanted name is missing.
pub fn arrange_fields(document: &Document, wanted: &Vec<String>) -> (res: Option<Document>)
    ensures
        match res {
            Some(ordered) => arranged(document@, field_names(document@), views(wanted@)) == Some(
                ordered@,
            ),
            None => arranged(document@, field_names(document@), views(wanted@)) is None,
        },
{
    let mut fields: Vec<Field> = Vec::new();
    let ghost names = views(wanted@);
    let mut i: usize = 0;
    assert(views(fields@) =~= Seq::<FieldView>::empty());
    while i < wanted.len()
        invariant
            i <= wanted.len(),
            names == views(wanted@),
            arranged(document@, field_names(document@), names.take(i as int)) == Some(
                views(fields@),
            ),
        decreases wanted.len() - i,
    {
        assert(names.take(i + 1).drop_last() =~= names.take(i as int));
        assert(names.take(i + 1).last() == wanted@[i as int]@);
        match find_field(document, &wanted[i]) {
            Some(place) => {
                assert(document@[place as int] == document.fields@[place as int]@);
                push_item(&mut fields, document.fields[place].clone());
            },
            None => {
                proof {
                    lemma_arranged_final(document@, field_names(document@), names, i + 1);
                }
                return None;
            },
        }
        i = i + 1;
    }
    assert(names.take(names.len() as int) =~= names);
    Some(Document { fields })
}

/// Puts the entries of a record in the order of the wanted names: for each
/// name the first entry that has it. Entries of other names are left out;
/// there is no arrangement where a wanted name is missing.
pub fn arrange_entries(record: &Record, wanted: &Vec<String>) -> (res: Option<Record>)
    ensures
        match res {
            Some(ordered) => arranged(record@, entry_names(record@), views(wanted@)) == Some(
                ordered@,
            ),
            None => arranged(record@, entry_names(record@), views(wanted@)) is None,
        },
{
    let mut entries: Vec<Entry> = Vec::new();
    let ghost names = views(wanted@);
    let mut i: usize = 0;
    assert(views(entries@) =~= Seq::<EntryView>::empty());
    while i < wanted.len()
        invariant
            i <= wanted.len(),
            names == views(wanted@),
            arranged(record@, entry_names(record@), names.take(i as int)) == Some(
                views(entries@),
            ),
        decreases wanted.len() - i,
    {
        assert(names.take(i + 1).drop_last() =~= names.take(i as int));
        assert(names.take(i + 1).last() == wanted@[i as int]@);
        match find_entry(record, &wanted[i]) {
            Some(place) => {
                assert(record@[place as int] == record.entries@[place as int]@);
                push_item(&mut entries, record.entries[place].clone());
            },
            None => {
                proof {
                    lemma_arranged_final(record@, entry_names(record@), names, i + 1);
                }
                return None;
            },
        }
        i = i + 1;
    }
    assert(names.take(names.len() as int) =~= names);
    Some(Record { entries })
}

/// The names that the given texts are.
pub fn names_of(texts: &[&str]) -> (names: Vec<String>)
    ensures
        names@.len() == texts@.len(),
        forall|i: int| 0 <= i < texts@.len() ==> (#[trigger] names@[i])@ == texts@[i]@,
{
    let mut names: Vec<String> = Vec::new();
    let mut i: usize = 0;
    while i < texts.len()
        invariant
            i <= texts.len(),
            names@.len() == i,
            forall|j: int| 0 <= j < i ==> (#[trigger] names@[j])@ == texts@[j]@,
        decreases texts.len() - i,
    {
        names.push(String::from_str(texts[i]));
        i = i + 1;
    }
    names
}

} // verus!
