use crate::util::document::Document;
use crate::util::document::EntryView;
use crate::util::document::FieldView;
use crate::util::document::Record;
use crate::util::document::Value;
use crate::util::document::ValueView;
use crate::util::sequence::views;
use crate::util::text::chars_of;
use crate::util::text::hex_char;
use crate::util::text::join;
use crate::util::text::push_char;
use vstd::prelude::*;

verus! {

/// How a character stands inside a quoted text: the quote, the backslash and
/// the control characters are escaped, any other character stands for itself.
pub open spec fn escaped_char(c: char) -> Seq<char> {
    if c == '"' {
        seq!['\\', '"']
    } else if c == '\\' {
        seq!['\\', '\\']
    } else if c == '\u{08}' {
        seq!['\\', 'b']
    } else if c == '\u{0c}' {
        seq!['\\', 'f']
    } else if c == '\n' {
        seq!['\\', 'n']
    } else if c == '\r' {
        seq!['\\', 'r']
    } else if c == '\t' {
        seq!['\\', 't']
    } else if (c as u32) < 0x20 {
        seq!['\\', 'u', '0', '0', hex_char((c as u32 / 16) as nat), hex_char((c as u32 % 16) as nat)]
    } else {
        seq![c]
    }
}

/// A text with each character as it stands inside quotes.
pub open spec fn escaped(text: Seq<char>) -> Seq<char>
    decreases text.len(),
{
    if text.len() == 0 {
        Seq::empty()
    } else {
        escaped(text.drop_last()) + escaped_char(text.last())
    }
}

/// A text in quotes.
pub open spec fn quoted(text: Seq<char>) -> Seq<char> {
    seq!['"'] + escaped(text) + seq!['"']
}

/// A list of texts: quoted, separated by commas, in square brackets.
pub open spec fn list_text(items: Seq<Seq<char>>) -> Seq<char> {
    seq!['['] + join(Seq::new(items.len(), |i: int| quoted(items[i])), seq![',']) + seq![']']
}

/// A named text: the quoted name, a colon, the quoted text.
pub open spec fn entry_text(entry: EntryView) -> Seq<char> {
    quoted(entry.name) + seq![':'] + quoted(entry.text)
}

/// A record: its entries, separated by commas, in braces.
pub open spec fn record_text(entries: Seq<EntryView>) -> Seq<char> {
    seq!['{'] + join(Seq::new(entries.len(), |i: int| entry_text(entries[i])), seq![','])
        + seq!['}']
}

/// A list of records: separated by commas, in square brackets.
pub open spec fn records_text(records: Seq<Seq<EntryView>>) -> Seq<char> {
    seq!['['] + join(Seq::new(records.len(), |i: int| record_text(records[i])), seq![','])
        + seq![']']
}

/// A value, written by its kind.
pub open spec fn value_text(value: ValueView) -> Seq<char> {
    match value {
        ValueView::Text(text) => quoted(text),
        ValueView::List(items) => list_text(items),
        ValueView::Record(entries) => record_text(entries),
        ValueView::Records(records) => records_text(records),
    }
}

/// A named value: the quoted name, a colon, the value.
pub open spec fn field_text(field: FieldView) -> Seq<char> {
    quoted(field.name) + seq![':'] + value_text(field.value)
}

/// A document as JSON: its fields in order, separated by commas, in braces,
/// without any white space.
pub open spec fn document_text(document: Seq<FieldView>) -> Seq<char> {
    seq!['{'] + join(Seq::new(document.len(), |i: int| field_text(document[i])), seq![','])
        + seq!['}']
}

/// Taking one more part adds it at the end, after a separator where it is not the first.
pub proof fn lemma_join_step(parts: Seq<Seq<char>>, separator: Seq<char>, i: int)
    requires
        0 <= i < parts.len(),
    ensures
        join(parts.take(i + 1), separator) == if i == 0 {
            parts[i]
        } else {
            join(parts.take(i), separator) + separator + parts[i]
        },
        join(parts.take(0), separator) == Seq::<char>::empty(),
        parts.take(parts.len() as int) == parts,
{
    assert(parts.take(i + 1).drop_last() =~= parts.take(i));
    assert(parts.take(parts.len() as int) =~= parts);
    assert(parts.take(i + 1).last() == parts[i]);
    if i == 0 {
        assert(parts.take(1)[0] == parts[0]);
    }
}

fn control_digit(d: u32) -> (c: char)
    requires
        d < 16,
    ensures
        c == hex_char(d as nat),
{
    if d < 10 {
        ((48 + d) as u8) as char
    } else {
        ((87 + d) as u8) as char
    }
}

/// Appends a character as it stands inside quotes.
pub fn write_escaped_char(out: &mut String, c: char)
    ensures
        final(out)@ == old(out)@ + escaped_char(c),
{
    if c == '"' {
        push_char(out, '\\');
        push_char(out, '"');
    } else if c == '\\' {
        push_char(out, '\\');
        push_char(out, '\\');
    } else if c == '\u{08}' {
        push_char(out, '\\');
        push_char(out, 'b');
    } else if c == '\u{0c}' {
        push_char(out, '\\');
        push_char(out, 'f');
    } else if c == '\n' {
        push_char(out, '\\');
        push_char(out, 'n');
    } else if c == '\r' {
        push_char(out, '\\');
        push_char(out, 'r');
    } else if c == '\t' {
        push_char(out, '\\');
        push_char(out, 't');
    } else if (c as u32) < 0x20 {
        push_char(out, '\\');
        push_char(out, 'u');
        push_char(out, '0');
        push_char(out, '0');
        push_char(out, control_digit(c as u32 / 16));
        push_char(out, control_digit(c as u32 % 16));
    } else {
        push_char(out, c);
    }
    assert(out@ =~= old(out)@ + escaped_char(c));
}

/// Appends a text in quotes.
pub fn write_quoted(out: &mut String, text: &str)
    ensures
        final(out)@ == old(out)@ + quoted(text@),
{
    let chars = chars_of(text);
    push_char(out, '"');
    let mut i: usize = 0;
    while i < chars.len()
        invariant
            i <= chars.len(),
            chars@ == text@,
            out@ == old(out)@ + seq!['"'] + escaped(chars@.take(i as int)),
        decreases chars.len() - i,
    {
        assert(chars@.take(i + 1).drop_last() =~= chars@.take(i as int));
        write_escaped_char(out, chars[i]);
        i = i + 1;
    }
    assert(chars@.take(chars@.len() as int) =~= chars@);
    push_char(out, '"');
    assert(out@ =~= old(out)@ + quoted(text@));
}

/// Appends a list of texts.
pub fn write_list(out: &mut String, items: &Vec<String>)
    ensures
        final(out)@ == old(out)@ + list_text(views(items@)),
{
    let ghost parts = Seq::new(views(items@).len(), |i: int| quoted(views(items@)[i]));
    push_char(out, '[');
    let mut i: usize = 0;
    while i < items.len()
        invariant
            i <= items.len(),
            parts == Seq::new(views(items@).len(), |i: int| quoted(views(items@)[i])),
            out@ == old(out)@ + seq!['['] + join(parts.take(i as int), seq![',']),
        decreases items.len() - i,
    {
        proof {
            lemma_join_step(parts, seq![','], i as int);
        }
        if i > 0 {
            push_char(out, ',');
        }
        write_quoted(out, items[i].as_str());
        i = i + 1;
        assert(out@ =~= old(out)@ + seq!['['] + join(parts.take(i as int), seq![',']));
    }
    assert(parts.take(parts.len() as int) =~= parts);
    push_char(out, ']');
    assert(out@ =~= old(out)@ + list_text(views(items@)));
}

/// Appends a record.
pub fn write_record(out: &mut String, record: &Record)
    ensures
        final(out)@ == old(out)@ + record_text(record@),
{
    let ghost parts = Seq::new(record@.len(), |i: int| entry_text(record@[i]));
    push_char(out, '{');
    let mut i: usize = 0;
    while i < record.entries.len()
        invariant
            i <= record.entries.len(),
            record@.len() == record.entries.len(),
            parts == Seq::new(record@.len(), |i: int| entry_text(record@[i])),
            out@ == old(out)@ + seq!['{'] + join(parts.take(i as int), seq![',']),
        decreases record.entries.len() - i,
    {
        proof {
            lemma_join_step(parts, seq![','], i as int);
        }
        if i > 0 {
            push_char(out, ',');
        }
        write_quoted(out, record.entries[i].name.as_str());
        push_char(out, ':');
        write_quoted(out, record.entries[i].text.as_str());
        i = i + 1;
        assert(out@ =~= old(out)@ + seq!['{'] + join(parts.take(i as int), seq![',']));
    }
    assert(parts.take(parts.len() as int) =~= parts);
    push_char(out, '}');
    assert(out@ =~= old(out)@ + record_text(record@));
}

/// Appends a list of records.
pub fn write_records(out: &mut String, records: &Vec<Record>)
    ensures
        final(out)@ == old(out)@ + records_text(views(records@)),
{
    let ghost parts = Seq::new(views(records@).len(), |i: int| record_text(views(records@)[i]));
    push_char(out, '[');
    let mut i: usize = 0;
    while i < records.len()
        invariant
            i <= records.len(),
            parts == Seq::new(views(records@).len(), |i: int| record_text(views(records@)[i])),
            out@ == old(out)@ + seq!['['] + join(parts.take(i as int), seq![',']),
        decreases records.len() - i,
    {
        proof {
            lemma_join_step(parts, seq![','], i as int);
        }
        if i > 0 {
            push_char(out, ',');
        }
        write_record(out, &records[i]);
        i = i + 1;
        assert(out@ =~= old(out)@ + seq!['['] + join(parts.take(i as int), seq![',']));
    }
    assert(parts.take(parts.len() as int) =~= parts);
    push_char(out, ']');
    assert(out@ =~= old(out)@ + records_text(views(records@)));
}

/// Appends a value.
pub fn write_value(out: &mut String, value: &Value)
    ensures
        final(out)@ == old(out)@ + value_text(value@),
{
    match value {
        Value::Text(text) => write_quoted(out, text.as_str()),
        Value::List(items) => write_list(out, items),
        Value::Record(record) => write_record(out, record),
        Value::Records(records) => write_records(out, records),
    }
}

/// Writes a document as JSON.
pub fn to_string(document: &Document) -> (text: String)
    ensures
        text@ == document_text(document@),
{
    let mut text = String::new();
    let ghost parts = Seq::new(document@.len(), |i: int| field_text(document@[i]));
    push_char(&mut text, '{');
    let mut i: usize = 0;
    while i < document.fields.len()
        invariant
            i <= document.fields.len(),
            document@.len() == document.fields.len(),
            parts == Seq::new(document@.len(), |i: int| field_text(document@[i])),
            text@ == seq!['{'] + join(parts.take(i as int), seq![',']),
        decreases document.fields.len() - i,
    {
        proof {
            lemma_join_step(parts, seq![','], i as int);
        }
        if i > 0 {
            push_char(&mut text, ',');
        }
        write_quoted(&mut text, document.fields[i].name.as_str());
        push_char(&mut text, ':');
        write_value(&mut text, &document.fields[i].value);
        i = i + 1;
        assert(text@ =~= seq!['{'] + join(parts.take(i as int), seq![',']));
    }
    assert(parts.take(parts.len() as int) =~= parts);
    push_char(&mut text, '}');
    assert(text@ =~= document_text(document@));
    text
}

} // verus!
