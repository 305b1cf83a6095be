use crate::util::sequence::clone_items;
use crate::util::sequence::views;
use crate::util::text::concat;
use crate::util::text::lemma_concat_step;
use vstd::prelude::*;
use vstd::string::StringExecFns;

verus! {

/// A named text of a record.
#[derive(Debug)]
pub struct Entry {
    pub name: String,
    pub text: String,
}

/// An `Entry` as contracts speak of it: its fields by their views.
pub struct EntryView {
    pub name: Seq<char>,
    pub text: Seq<char>,
}

impl View for Entry {
    type V = EntryView;

    open spec fn view(&self) -> EntryView {
        EntryView { name: self.name@, text: self.text@ }
    }
}

impl Clone for Entry {
    fn clone(&self) -> (res: Self)
        ensures
            res@ == self@,
    {
        Entry { name: self.name.clone(), text: self.text.clone() }
    }
}

impl Entry {
    /// The entry with the given name and text.
    pub fn new(name: &str, text: String) -> (entry: Entry)
        ensures
            entry@ == (EntryView { name: name@, text: text@ }),
    {
        Entry { name: String::from_str(name), text }
    }
}

/// A flat record: named texts in a fixed order.
#[derive(Debug)]
pub struct Record {
    pub entries: Vec<Entry>,
}

impl View for Record {
    type V = Seq<EntryView>;

    open spec fn view(&self) -> Seq<EntryView> {
        views(self.entries@)
    }
}

impl Clone for Record {
    fn clone(&self) -> (res: Self)
        ensures
            res@ == self@,
    {
        Record { entries: clone_items(&self.entries) }
    }
}

/// What a field of a document holds.
#[derive(Debug)]
pub enum Value {
    /// One text.
    Text(String),
    /// Texts in order.
    List(Vec<String>),
    /// One record.
    Record(Record),
    /// Records in order.
    Records(Vec<Record>),
}

/// A `Value` as contracts speak of it: its fields by their views.
pub enum ValueView {
    Text(Seq<char>),
    List(Seq<Seq<char>>),
    Record(Seq<EntryView>),
    Records(Seq<Seq<EntryView>>),
}

impl View for Value {
    type V = ValueView;

    open spec fn view(&self) -> ValueView {
        match self {
            Value::Text(text) => ValueView::Text(text@),
            Value::List(items) => ValueView::List(views(items@)),
            Value::Record(record) => ValueView::Record(record@),
            Value::Records(records) => ValueView::Records(views(records@)),
        }
    }
}

impl Clone for Value {
    fn clone(&self) -> (res: Self)
        ensures
            res@ == self@,
    {
        match self {
            Value::Text(text) => Value::Text(text.clone()),
            Value::List(items) => Value::List(clone_items(items)),
            Value::Record(record) => Value::Record(record.clone()),
            Value::Records(records) => Value::Records(clone_items(records)),
        }
    }
}

/// A named value of a document.
#[derive(Debug)]
pub struct Field {
    pub name: String,
    pub value: Value,
}

/// A `Field` as contracts speak of it: its fields by their views.
pub struct FieldView {
    pub name: Seq<char>,
    pub value: ValueView,
}

impl View for Field {
    type V = FieldView;

    open spec fn view(&self) -> FieldView {
        FieldView { name: self.name@, value: self.value@ }
    }
}

impl Clone for Field {
    fn clone(&self) -> (res: Self)
        ensures
            res@ == self@,
    {
        Field { name: self.name.clone(), value: self.value.clone() }
    }
}

impl Field {
    /// The field with the given name and value.
    pub fn new(name: &str, value: Value) -> (field: Field)
        ensures
            field@ == (FieldView { name: name@, value: value@ }),
    {
        Field { name: String::from_str(name), value }
    }
}

/// The form in which a message is written out: named values in a fixed
/// order, each a text, a list of texts, a record or a list of records.
#[derive(Debug)]
pub struct Document {
    pub fields: Vec<Field>,
}

impl View for Document {
    type V = Seq<FieldView>;

    open spec fn view(&self) -> Seq<FieldView> {
        views(self.fields@)
    }
}

/// The names of the fields of a document, in order.
pub open spec fn field_names(document: Seq<FieldView>) -> Seq<Seq<char>> {
    Seq::new(document.len(), |i: int| document[i].name)
}

/// The names of the entries of a record, in order.
pub open spec fn entry_names(entries: Seq<EntryView>) -> Seq<Seq<char>> {
    Seq::new(entries.len(), |i: int| entries[i].name)
}

/// The texts of the entries of a record, in order.
pub open spec fn entry_texts(entries: Seq<EntryView>) -> Seq<Seq<char>> {
    Seq::new(entries.len(), |i: int| entries[i].text)
}

/// The texts that a record holds, one after another.
pub open spec fn record_leaves(entries: Seq<EntryView>) -> Seq<char> {
    concat(entry_texts(entries))
}

/// The texts that a value holds, one after another.
pub open spec fn value_leaves(value: ValueView) -> Seq<char> {
    match value {
        ValueView::Text(text) => text,
        ValueView::List(items) => concat(items),
        ValueView::Record(entries) => record_leaves(entries),
        ValueView::Records(records) => concat(
            Seq::new(records.len(), |i: int| record_leaves(records[i])),
        ),
    }
}

/// The field that holds one text.
pub open spec fn text_field(name: Seq<char>, text: Seq<char>) -> FieldView {
    FieldView { name, value: ValueView::Text(text) }
}

/// The field that holds a list of texts.
pub open spec fn list_field(name: Seq<char>, items: Seq<Seq<char>>) -> FieldView {
    FieldView { name, value: ValueView::List(items) }
}

/// The field that holds one record.
pub open spec fn record_field(name: Seq<char>, entries: Seq<EntryView>) -> FieldView {
    FieldView { name, value: ValueView::Record(entries) }
}

/// The field that holds a list of records.
pub open spec fn records_field(name: Seq<char>, records: Seq<Seq<EntryView>>) -> FieldView {
    FieldView { name, value: ValueView::Records(records) }
}

/// The texts that a document holds, one after another in the order of its
/// fields: the names are left out.
pub open spec fn leaves(document: Seq<FieldView>) -> Seq<char> {
    concat(Seq::new(document.len(), |i: int| value_leaves(document[i].value)))
}

/// Appends texts to a text, one after another.
pub fn append_all(out: &mut String, items: &Vec<String>)
    ensures
        final(out)@ == old(out)@ + concat(views(items@)),
{
    let ghost parts = views(items@);
    let mut i: usize = 0;
    while i < items.len()
        invariant
            i <= items.len(),
            parts == views(items@),
            out@ == old(out)@ + concat(parts.take(i as int)),
        decreases items.len() - i,
    {
        proof {
            lemma_concat_step(parts, i as int);
        }
        out.append(items[i].as_str());
        i = i + 1;
    }
    proof {
        assert(parts.take(parts.len() as int) =~= parts);
    }
}

/// Appends the texts of a record to a text, one after another.
pub fn append_record_leaves(out: &mut String, record: &Record)
    ensures
        final(out)@ == old(out)@ + record_leaves(record@),
{
    let ghost parts = entry_texts(record@);
    let mut i: usize = 0;
    while i < record.entries.len()
        invariant
            i <= record.entries.len(),
            parts == entry_texts(record@),
            parts.len() == record.entries.len(),
            out@ == old(out)@ + concat(parts.take(i as int)),
        decreases record.entries.len() - i,
    {
        proof {
            lemma_concat_step(parts, i as int);
        }
        out.append(record.entries[i].text.as_str());
        i = i + 1;
    }
    proof {
        assert(parts.take(parts.len() as int) =~= parts);
    }
}

/// Appends the texts of a value to a text, one after another.
pub fn append_value_leaves(out: &mut String, value: &Value)
    ensures
        final(out)@ == old(out)@ + value_leaves(value@),
{
    match value {
        Value::Text(text) => {
            out.append(text.as_str());
        },
        Value::List(items) => {
            append_all(out, items);
        },
        Value::Record(record) => {
            append_record_leaves(out, record);
        },
        Value::Records(records) => {
            let ghost parts = Seq::new(
                records@.len(),
                |i: int| record_leaves(views(records@)[i]),
            );
            let mut i: usize = 0;
            while i < records.len()
                invariant
                    i <= records.len(),
                    parts == Seq::new(records@.len(), |i: int| record_leaves(views(records@)[i])),
                    out@ == old(out)@ + concat(parts.take(i as int)),
                decreases records.len() - i,
            {
                proof {
                    lemma_concat_step(parts, i as int);
                }
                append_record_leaves(out, &records[i]);
                i = i + 1;
            }
            proof {
                assert(parts.take(parts.len() as int) =~= parts);
            }
        },
    }
}

impl Document {
    /// The texts that the document holds, one after another in the order of
    /// its fields.
    pub fn leaves(&self) -> (text: String)
        ensures
            text@ == leaves(self@),
    {
        let mut text = String::new();
        let ghost parts = Seq::new(self@.len(), |i: int| value_leaves(self@[i].value));
        let mut i: usize = 0;
        while i < self.fields.len()
            invariant
                i <= self.fields.len(),
                parts == Seq::new(self@.len(), |i: int| value_leaves(self@[i].value)),
                text@ == concat(parts.take(i as int)),
            decreases self.fields.len() - i,
        {
            proof {
                lemma_concat_step(parts, i as int);
            }
            append_value_leaves(&mut text, &self.fields[i].value);
            i = i + 1;
        }
        proof {
            assert(parts.take(parts.len() as int) =~= parts);
        }
        text
    }
}

} // verus!
