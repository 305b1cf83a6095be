use crate::error::Failure;
use crate::util::document::EntryView;
use crate::util::document::FieldView;
use crate::util::document::ValueView;
use crate::util::json::document_text;
use crate::util::json::entry_text;
use crate::util::json::escaped;
use crate::util::json::escaped_char;
use crate::util::json::field_text;
use crate::util::json::list_text;
use crate::util::json::quoted;
use crate::util::json::record_text;
use crate::util::json::records_text;
use crate::util::json::value_text;
use crate::util::json_parser::after;
use crate::util::json_parser::document_at;
use crate::util::json_parser::entries_after;
use crate::util::json_parser::entry_at;
use crate::util::json_parser::field_at;
use crate::util::json_parser::fields_after;
use crate::util::json_parser::parsed;
use crate::util::json_parser::record_at;
use crate::util::json_parser::records_after;
use crate::util::json_parser::string_at;
use crate::util::json_parser::string_body;
use crate::util::json_parser::strings_after;
use crate::util::json_parser::unescaped;
use crate::util::json_parser::value_at;
use crate::util::text::continued;
use crate::util::text::hex_char;
use crate::util::text::hex_digit_value;
use crate::util::text::join;
use crate::util::text::lemma_continued_front;
use crate::util::text::lemma_join_first;
use vstd::prelude::*;

verus! {

/// Whether the text `t` stands in `s` from position `i` on.
pub open spec fn has_at(s: Seq<char>, i: int, t: Seq<char>) -> bool {
    0 <= i && i + t.len() <= s.len() && s.subrange(i, i + t.len()) == t
}

/// Two texts stand one after the other exactly when their concatenation stands there.
pub proof fn lemma_has_at_split(s: Seq<char>, i: int, a: Seq<char>, b: Seq<char>)
    requires
        has_at(s, i, a + b),
    ensures
        has_at(s, i, a),
        has_at(s, i + a.len(), b),
{
    let whole = s.subrange(i, i + (a + b).len());
    assert(s.subrange(i, i + a.len()) =~= whole.subrange(0, a.len() as int));
    assert((a + b).subrange(0, a.len() as int) =~= a);
    assert(s.subrange(i + a.len(), i + a.len() + b.len()) =~= whole.subrange(
        a.len() as int,
        (a + b).len() as int,
    ));
    assert((a + b).subrange(a.len() as int, (a + b).len() as int) =~= b);
}

/// A text that stands in `s` gives its characters to `s`.
pub proof fn lemma_has_at_index(s: Seq<char>, i: int, t: Seq<char>, k: int)
    requires
        has_at(s, i, t),
        0 <= k < t.len(),
    ensures
        s[i + k] == t[k],
{
    assert(s.subrange(i, i + t.len())[k] == s[i + k]);
}

/// The escaped form of a text is, from the front, the escaped form of its
/// first character and that of the rest.
pub proof fn lemma_escaped_front(t: Seq<char>)
    requires
        t.len() > 0,
    ensures
        escaped(t) == escaped_char(t[0]) + escaped(t.drop_first()),
    decreases t.len(),
{
    if t.len() == 1 {
        assert(t.drop_last() =~= Seq::<char>::empty());
        assert(t.drop_first() =~= Seq::<char>::empty());
        assert(escaped(t) =~= escaped_char(t[0]) + escaped(t.drop_first()));
    } else {
        lemma_escaped_front(t.drop_last());
        assert(t.drop_last().drop_first() =~= t.drop_first().drop_last());
        assert(t.drop_last()[0] == t[0]);
        assert(t.drop_first().last() == t.last());
        assert(escaped(t) =~= escaped_char(t[0]) + escaped(t.drop_first()));
    }
}

/// An escaped character reads back as the character.
pub proof fn lemma_escaped_char_read(s: Seq<char>, i: int, c: char)
    requires
        has_at(s, i, escaped_char(c)),
        i + escaped_char(c).len() < s.len(),
    ensures
        string_body(s, i) == after(seq![c], string_body(s, i + escaped_char(c).len())),
{
    let e = escaped_char(c);
    assert(e.len() >= 1);
    lemma_has_at_index(s, i, e, 0);
    if e.len() >= 2 {
        lemma_has_at_index(s, i, e, 1);
    }
    if e.len() == 6 {
        lemma_has_at_index(s, i, e, 2);
        lemma_has_at_index(s, i, e, 3);
        lemma_has_at_index(s, i, e, 4);
        lemma_has_at_index(s, i, e, 5);
        let v = c as u32;
        assert(v < 0x20);
        assert(hex_digit_value(hex_char((v / 16) as nat)) == Some((v / 16) as nat));
        assert(hex_digit_value(hex_char((v % 16) as nat)) == Some((v % 16) as nat));
        assert((((v / 16) * 16 + v % 16) as u8) as char == c);
    }
}

/// A text that stands escaped before a quote reads back as the text.
pub proof fn lemma_string_body(s: Seq<char>, i: int, t: Seq<char>)
    requires
        has_at(s, i, escaped(t) + seq!['"']),
    ensures
        string_body(s, i) == Some((t, i + escaped(t).len() + 1)),
    decreases t.len(),
{
    if t.len() == 0 {
        assert(escaped(t) =~= Seq::<char>::empty());
        lemma_has_at_index(s, i, escaped(t) + seq!['"'], 0);
    } else {
        lemma_escaped_front(t);
        let e = escaped_char(t[0]);
        let rest = t.drop_first();
        assert(escaped(t) + seq!['"'] =~= e + (escaped(rest) + seq!['"']));
        lemma_has_at_split(s, i, e, escaped(rest) + seq!['"']);
        lemma_escaped_char_read(s, i, t[0]);
        lemma_string_body(s, i + e.len(), rest);
        assert(seq![t[0]] + rest =~= t);
    }
}

/// A quoted text reads back as the text.
pub proof fn lemma_string_at(s: Seq<char>, i: int, t: Seq<char>)
    requires
        has_at(s, i, quoted(t)),
    ensures
        string_at(s, i) == Some((t, i + quoted(t).len())),
{
    assert(quoted(t) =~= seq!['"'] + (escaped(t) + seq!['"']));
    lemma_has_at_split(s, i, seq!['"'], escaped(t) + seq!['"']);
    lemma_has_at_index(s, i, quoted(t), 0);
    lemma_string_body(s, i + 1, t);
}

/// The quoted forms of a list of texts.
pub open spec fn quoted_items(items: Seq<Seq<char>>) -> Seq<Seq<char>> {
    Seq::new(items.len(), |i: int| quoted(items[i]))
}

/// The texts of the entries of a record.
pub open spec fn entry_parts(entries: Seq<EntryView>) -> Seq<Seq<char>> {
    Seq::new(entries.len(), |i: int| entry_text(entries[i]))
}

/// The texts of a list of records.
pub open spec fn record_parts(records: Seq<Seq<EntryView>>) -> Seq<Seq<char>> {
    Seq::new(records.len(), |i: int| record_text(records[i]))
}

/// The texts of the fields of a document.
pub open spec fn field_parts(fields: Seq<FieldView>) -> Seq<Seq<char>> {
    Seq::new(fields.len(), |i: int| field_text(fields[i]))
}

/// Texts that stand each after a comma, up to a closing bracket, read back as the texts.
pub proof fn lemma_strings_after(s: Seq<char>, i: int, items: Seq<Seq<char>>)
    requires
        has_at(s, i, continued(quoted_items(items), seq![',']) + seq![']']),
    ensures
        strings_after(s, i) == Some(
            (items, i + continued(quoted_items(items), seq![',']).len() + 1),
        ),
    decreases items.len(),
{
    let parts = quoted_items(items);
    let whole = continued(parts, seq![',']) + seq![']'];
    if items.len() == 0 {
        lemma_has_at_index(s, i, whole, 0);
        assert(items =~= Seq::<Seq<char>>::empty());
    } else {
        lemma_continued_front(parts, seq![',']);
        let rest = items.drop_first();
        assert(parts.drop_first() =~= quoted_items(rest));
        let tail = continued(quoted_items(rest), seq![',']) + seq![']'];
        assert(whole =~= seq![','] + (quoted(items[0]) + tail));
        lemma_has_at_split(s, i, seq![','], quoted(items[0]) + tail);
        lemma_has_at_index(s, i, whole, 0);
        lemma_has_at_split(s, i + 1, quoted(items[0]), tail);
        lemma_string_at(s, i + 1, items[0]);
        lemma_strings_after(s, i + 1 + quoted(items[0]).len(), rest);
        assert(seq![items[0]] + rest =~= items);
    }
}

/// A named text reads back as it was written.
pub proof fn lemma_entry_at(s: Seq<char>, i: int, entry: EntryView)
    requires
        has_at(s, i, entry_text(entry)),
    ensures
        entry_at(s, i) == Some((entry, i + entry_text(entry).len())),
{
    let name = quoted(entry.name);
    let text = quoted(entry.text);
    assert(entry_text(entry) =~= name + (seq![':'] + text));
    lemma_has_at_split(s, i, name, seq![':'] + text);
    lemma_has_at_split(s, i + name.len(), seq![':'], text);
    lemma_has_at_index(s, i + name.len(), seq![':'], 0);
    lemma_string_at(s, i, entry.name);
    lemma_string_at(s, i + name.len() + 1, entry.text);
}

/// Entries that stand each after a comma, up to a closing brace, read back as the entries.
pub proof fn lemma_entries_after(s: Seq<char>, i: int, entries: Seq<EntryView>)
    requires
        has_at(s, i, continued(entry_parts(entries), seq![',']) + seq!['}']),
    ensures
        entries_after(s, i) == Some(
            (entries, i + continued(entry_parts(entries), seq![',']).len() + 1),
        ),
    decreases entries.len(),
{
    let parts = entry_parts(entries);
    let whole = continued(parts, seq![',']) + seq!['}'];
    if entries.len() == 0 {
        lemma_has_at_index(s, i, whole, 0);
        assert(entries =~= Seq::<EntryView>::empty());
    } else {
        lemma_continued_front(parts, seq![',']);
        let rest = entries.drop_first();
        assert(parts.drop_first() =~= entry_parts(rest));
        let tail = continued(entry_parts(rest), seq![',']) + seq!['}'];
        assert(whole =~= seq![','] + (entry_text(entries[0]) + tail));
        lemma_has_at_split(s, i, seq![','], entry_text(entries[0]) + tail);
        lemma_has_at_index(s, i, whole, 0);
        lemma_has_at_split(s, i + 1, entry_text(entries[0]), tail);
        lemma_entry_at(s, i + 1, entries[0]);
        lemma_entries_after(s, i + 1 + entry_text(entries[0]).len(), rest);
        assert(seq![entries[0]] + rest =~= entries);
    }
}

/// A quoted text starts with a quote.
pub proof fn lemma_quoted_starts(t: Seq<char>)
    ensures
        quoted(t).len() >= 2,
        quoted(t)[0] == '"',
{
}

/// A record reads back as it was written.
pub proof fn lemma_record_at(s: Seq<char>, i: int, entries: Seq<EntryView>)
    requires
        has_at(s, i, record_text(entries)),
    ensures
        record_at(s, i) == Some((entries, i + record_text(entries).len())),
        record_text(entries).len() >= 2,
        record_text(entries)[0] == '{',
{
    let parts = entry_parts(entries);
    let whole = record_text(entries);
    lemma_has_at_index(s, i, whole, 0);
    if entries.len() == 0 {
        assert(join(parts, seq![',']) =~= Seq::<char>::empty());
        assert(whole =~= seq!['{', '}']);
        lemma_has_at_index(s, i, whole, 1);
        assert(entries =~= Seq::<EntryView>::empty());
    } else {
        let rest = entries.drop_first();
        assert(parts =~= seq![entry_text(entries[0])] + entry_parts(rest));
        lemma_join_first(entry_text(entries[0]), entry_parts(rest), seq![',']);
        let tail = continued(entry_parts(rest), seq![',']) + seq!['}'];
        assert(whole =~= seq!['{'] + (entry_text(entries[0]) + tail));
        lemma_has_at_split(s, i, seq!['{'], entry_text(entries[0]) + tail);
        lemma_has_at_split(s, i + 1, entry_text(entries[0]), tail);
        lemma_quoted_starts(entries[0].name);
        assert(entry_text(entries[0])[0] == '"');
        lemma_has_at_index(s, i + 1, entry_text(entries[0]), 0);
        lemma_entry_at(s, i + 1, entries[0]);
        lemma_entries_after(s, i + 1 + entry_text(entries[0]).len(), rest);
        assert(seq![entries[0]] + rest =~= entries);
    }
}

/// A record is written in braces.
pub proof fn lemma_record_starts(entries: Seq<EntryView>)
    ensures
        record_text(entries).len() >= 2,
        record_text(entries)[0] == '{',
{
}

/// Records that stand each after a comma, up to a closing bracket, read back as the records.
pub proof fn lemma_records_after(s: Seq<char>, i: int, records: Seq<Seq<EntryView>>)
    requires
        has_at(s, i, continued(record_parts(records), seq![',']) + seq![']']),
    ensures
        records_after(s, i) == Some(
            (records, i + continued(record_parts(records), seq![',']).len() + 1),
        ),
    decreases records.len(),
{
    let parts = record_parts(records);
    let whole = continued(parts, seq![',']) + seq![']'];
    if records.len() == 0 {
        lemma_has_at_index(s, i, whole, 0);
        assert(records =~= Seq::<Seq<EntryView>>::empty());
    } else {
        lemma_continued_front(parts, seq![',']);
        let rest = records.drop_first();
        assert(parts.drop_first() =~= record_parts(rest));
        let tail = continued(record_parts(rest), seq![',']) + seq![']'];
        assert(whole =~= seq![','] + (record_text(records[0]) + tail));
        lemma_has_at_split(s, i, seq![','], record_text(records[0]) + tail);
        lemma_has_at_index(s, i, whole, 0);
        lemma_has_at_split(s, i + 1, record_text(records[0]), tail);
        lemma_record_at(s, i + 1, records[0]);
        lemma_records_after(s, i + 1 + record_text(records[0]).len(), rest);
        assert(seq![records[0]] + rest =~= records);
    }
}

/// The value as it is read back: an empty list of records is written as
/// empty brackets, which read as an empty list of texts.
pub open spec fn normal(value: ValueView) -> ValueView {
    match value {
        ValueView::Records(records) => if records.len() == 0 {
            ValueView::List(Seq::empty())
        } else {
            value
        },
        _ => value,
    }
}

/// A list of texts reads back as it was written.
pub proof fn lemma_list_at(s: Seq<char>, i: int, items: Seq<Seq<char>>)
    requires
        has_at(s, i, list_text(items)),
    ensures
        value_at(s, i) == Some((ValueView::List(items), i + list_text(items).len())),
        list_text(items).len() >= 2,
{
    let whole = list_text(items);
    let parts = quoted_items(items);
    lemma_has_at_index(s, i, whole, 0);
    if items.len() == 0 {
        assert(join(parts, seq![',']) =~= Seq::<char>::empty());
        assert(whole =~= seq!['[', ']']);
        lemma_has_at_index(s, i, whole, 1);
        assert(items =~= Seq::<Seq<char>>::empty());
    } else {
        let rest = items.drop_first();
        assert(parts =~= seq![quoted(items[0])] + quoted_items(rest));
        lemma_join_first(quoted(items[0]), quoted_items(rest), seq![',']);
        let tail = continued(quoted_items(rest), seq![',']) + seq![']'];
        assert(whole =~= seq!['['] + (quoted(items[0]) + tail));
        lemma_has_at_split(s, i, seq!['['], quoted(items[0]) + tail);
        lemma_has_at_split(s, i + 1, quoted(items[0]), tail);
        lemma_has_at_index(s, i + 1, quoted(items[0]), 0);
        lemma_string_at(s, i + 1, items[0]);
        lemma_strings_after(s, i + 1 + quoted(items[0]).len(), rest);
        assert(seq![items[0]] + rest =~= items);
        let end = i + 1 + quoted(items[0]).len() + continued(quoted_items(rest), seq![',']).len()
            + 1;
        assert(end == i + whole.len());
        assert(s[i] == '[');
        assert(s[i + 1] == '"');
        assert(string_at(s, i + 1) == Some((items[0], i + 1 + quoted(items[0]).len())));
        assert(strings_after(s, i + 1 + quoted(items[0]).len()) == Some((rest, end)));
    }
}

/// A list of records reads back as it was written, an empty one as an
/// empty list of texts.
pub proof fn lemma_records_at(s: Seq<char>, i: int, records: Seq<Seq<EntryView>>)
    requires
        has_at(s, i, records_text(records)),
    ensures
        value_at(s, i) == Some(
            (normal(ValueView::Records(records)), i + records_text(records).len()),
        ),
        records_text(records).len() >= 2,
{
    let whole = records_text(records);
    let parts = record_parts(records);
    lemma_has_at_index(s, i, whole, 0);
    if records.len() == 0 {
        assert(join(parts, seq![',']) =~= Seq::<char>::empty());
        assert(whole =~= seq!['[', ']']);
        lemma_has_at_index(s, i, whole, 1);
    } else {
        let rest = records.drop_first();
        assert(parts =~= seq![record_text(records[0])] + record_parts(rest));
        lemma_join_first(record_text(records[0]), record_parts(rest), seq![',']);
        let tail = continued(record_parts(rest), seq![',']) + seq![']'];
        assert(whole =~= seq!['['] + (record_text(records[0]) + tail));
        lemma_has_at_split(s, i, seq!['['], record_text(records[0]) + tail);
        lemma_has_at_split(s, i + 1, record_text(records[0]), tail);
        lemma_record_starts(records[0]);
        lemma_has_at_index(s, i + 1, record_text(records[0]), 0);
        lemma_record_at(s, i + 1, records[0]);
        lemma_records_after(s, i + 1 + record_text(records[0]).len(), rest);
        assert(seq![records[0]] + rest =~= records);
        let end = i + 1 + record_text(records[0]).len() + continued(
            record_parts(rest),
            seq![','],
        ).len() + 1;
        assert(end == i + whole.len());
        assert(s[i] == '[');
        assert(s[i + 1] == '{');
        assert(record_at(s, i + 1) == Some((records[0], i + 1 + record_text(records[0]).len())));
        assert(records_after(s, i + 1 + record_text(records[0]).len()) == Some((rest, end)));
    }
}

/// A value reads back as it was written.
pub proof fn lemma_value_at(s: Seq<char>, i: int, value: ValueView)
    requires
        has_at(s, i, value_text(value)),
    ensures
        value_at(s, i) == Some((normal(value), i + value_text(value).len())),
        value_text(value).len() >= 2,
{
    let whole = value_text(value);
    match value {
        ValueView::Text(text) => {
            lemma_has_at_index(s, i, whole, 0);
            lemma_string_at(s, i, text);
        },
        ValueView::Record(entries) => {
            lemma_has_at_index(s, i, whole, 0);
            lemma_record_at(s, i, entries);
        },
        ValueView::List(items) => {
            lemma_list_at(s, i, items);
        },
        ValueView::Records(records) => {
            lemma_records_at(s, i, records);
        },
    }
}

/// The field as it is read back.
pub open spec fn normal_field(field: FieldView) -> FieldView {
    FieldView { name: field.name, value: normal(field.value) }
}

/// The document as it is read back: field by field.
pub open spec fn normal_document(document: Seq<FieldView>) -> Seq<FieldView> {
    Seq::new(document.len(), |i: int| normal_field(document[i]))
}

/// A named value reads back as it was written.
pub proof fn lemma_field_at(s: Seq<char>, i: int, field: FieldView)
    requires
        has_at(s, i, field_text(field)),
    ensures
        field_at(s, i) == Some((normal_field(field), i + field_text(field).len())),
        field_text(field).len() >= 2,
        field_text(field)[0] == '"',
{
    let name = quoted(field.name);
    let value = value_text(field.value);
    assert(field_text(field) =~= name + (seq![':'] + value));
    lemma_has_at_split(s, i, name, seq![':'] + value);
    lemma_has_at_split(s, i + name.len(), seq![':'], value);
    lemma_has_at_index(s, i + name.len(), seq![':'], 0);
    lemma_string_at(s, i, field.name);
    lemma_value_at(s, i + name.len() + 1, field.value);
}

/// Fields that stand each after a comma, up to a closing brace, read back as the fields.
pub proof fn lemma_fields_after(s: Seq<char>, i: int, fields: Seq<FieldView>)
    requires
        has_at(s, i, continued(field_parts(fields), seq![',']) + seq!['}']),
    ensures
        fields_after(s, i) == Some(
            (normal_document(fields), i + continued(field_parts(fields), seq![',']).len() + 1),
        ),
    decreases fields.len(),
{
    let parts = field_parts(fields);
    let whole = continued(parts, seq![',']) + seq!['}'];
    if fields.len() == 0 {
        lemma_has_at_index(s, i, whole, 0);
        assert(normal_document(fields) =~= Seq::<FieldView>::empty());
    } else {
        lemma_continued_front(parts, seq![',']);
        let rest = fields.drop_first();
        assert(parts.drop_first() =~= field_parts(rest));
        let tail = continued(field_parts(rest), seq![',']) + seq!['}'];
        assert(whole =~= seq![','] + (field_text(fields[0]) + tail));
        lemma_has_at_split(s, i, seq![','], field_text(fields[0]) + tail);
        lemma_has_at_index(s, i, whole, 0);
        lemma_has_at_split(s, i + 1, field_text(fields[0]), tail);
        lemma_field_at(s, i + 1, fields[0]);
        lemma_fields_after(s, i + 1 + field_text(fields[0]).len(), rest);
        assert(seq![normal_field(fields[0])] + normal_document(rest) =~= normal_document(fields));
    }
}

/// A document reads back as it was written.
pub proof fn lemma_document_at(s: Seq<char>, i: int, document: Seq<FieldView>)
    requires
        has_at(s, i, document_text(document)),
    ensures
        document_at(s, i) == Some(
            (normal_document(document), i + document_text(document).len()),
        ),
{
    let whole = document_text(document);
    let parts = field_parts(document);
    lemma_has_at_index(s, i, whole, 0);
    if document.len() == 0 {
        assert(join(parts, seq![',']) =~= Seq::<char>::empty());
        assert(whole =~= seq!['{', '}']);
        lemma_has_at_index(s, i, whole, 1);
        assert(normal_document(document) =~= Seq::<FieldView>::empty());
    } else {
        let rest = document.drop_first();
        let first = field_text(document[0]);
        assert(parts =~= seq![first] + field_parts(rest));
        lemma_join_first(first, field_parts(rest), seq![',']);
        let tail = continued(field_parts(rest), seq![',']) + seq!['}'];
        assert(whole =~= seq!['{'] + (first + tail));
        lemma_has_at_split(s, i, seq!['{'], first + tail);
        lemma_has_at_split(s, i + 1, first, tail);
        lemma_field_at(s, i + 1, document[0]);
        lemma_has_at_index(s, i + 1, first, 0);
        lemma_fields_after(s, i + 1 + first.len(), rest);
        assert(seq![normal_field(document[0])] + normal_document(rest) =~= normal_document(
            document,
        ));
        let end = i + 1 + first.len() + continued(field_parts(rest), seq![',']).len() + 1;
        assert(end == i + whole.len());
        assert(s[i] == '{');
        assert(s[i + 1] == '"');
        assert(field_at(s, i + 1) == Some((normal_field(document[0]), i + 1 + first.len())));
        assert(fields_after(s, i + 1 + first.len()) == Some((normal_document(rest), end)));
    }
}

/// A document that is written as JSON reads back as the same document,
/// but for empty lists of records, which read back as empty lists of texts.
pub proof fn law_document_reads_back(document: Seq<FieldView>)
    ensures
        parsed(document_text(document)) == Ok::<Seq<FieldView>, Failure>(
            normal_document(document),
        ),
{
    let s = document_text(document);
    assert(s.subrange(0, s.len() as int) =~= s);
    lemma_document_at(s, 0, document);
}

} // verus!
