use crate::util::document::EntryView;
use crate::util::document::FieldView;
use crate::util::document::ValueView;
use crate::util::json::document_text;
use crate::util::json::entry_text;
use crate::util::json::escaped;
use crate::util::json::escaped_char;
use crate::util::json::field_text;
use crate::util::json::list_text;
use crate::util::json::quoted;
use crate::util::json::record_text;
use crate::util::json::records_text;
use crate::util::json::value_text;
use crate::util::json_laws::entry_parts;
use crate::util::json_laws::field_parts;
use crate::util::json_laws::quoted_items;
use crate::util::json_laws::record_parts;
use crate::util::lines::single_line;
use crate::util::lines::single_lines;
use crate::util::text::hex_char;
use crate::util::text::join;
use vstd::prelude::*;

verus! {

/// No line feed stands in an escaped text: it is escaped itself.
pub proof fn lemma_escaped_single_line(text: Seq<char>)
    ensures
        single_line(escaped(text)),
    decreases text.len(),
{
    if text.len() > 0 {
        lemma_escaped_single_line(text.drop_last());
        let head = escaped(text.drop_last());
        let last = escaped_char(text.last());
        assert(single_line(last)) by {
            assert forall|i: int| 0 <= i < last.len() implies #[trigger] last[i] != '\n' by {
                let v = text.last() as u32;
                if last.len() == 6 {
                    assert(hex_char((v / 16) as nat) != '\n');
                    assert(hex_char((v % 16) as nat) != '\n');
                }
            }
        }
        assert forall|i: int| 0 <= i < escaped(text).len() implies #[trigger] escaped(text)[i]
            != '\n' by {
            if i < head.len() {
                assert(escaped(text)[i] == head[i]);
            } else {
                assert(escaped(text)[i] == last[i - head.len()]);
            }
        }
    }
}

/// Texts without line feed stay without line feed when they stand one after the other.
pub proof fn lemma_single_line_add(a: Seq<char>, b: Seq<char>)
    requires
        single_line(a),
        single_line(b),
    ensures
        single_line(a + b),
{
    assert forall|i: int| 0 <= i < (a + b).len() implies #[trigger] (a + b)[i] != '\n' by {
        if i < a.len() {
            assert((a + b)[i] == a[i]);
        } else {
            assert((a + b)[i] == b[i - a.len()]);
        }
    }
}

/// No line feed stands in a quoted text.
pub proof fn lemma_quoted_single_line(text: Seq<char>)
    ensures
        single_line(quoted(text)),
{
    lemma_escaped_single_line(text);
    lemma_single_line_add(seq!['"'], escaped(text));
    lemma_single_line_add(seq!['"'] + escaped(text), seq!['"']);
}

/// Texts without line feed that are joined by commas hold no line feed.
pub proof fn lemma_join_single_line(parts: Seq<Seq<char>>)
    requires
        single_lines(parts),
    ensures
        single_line(join(parts, seq![','])),
    decreases parts.len(),
{
    if parts.len() == 1 {
        assert(single_line(parts[0]));
    } else if parts.len() > 1 {
        assert forall|i: int| 0 <= i < parts.drop_last().len() implies single_line(
            #[trigger] parts.drop_last()[i],
        ) by {
            assert(parts.drop_last()[i] == parts[i]);
        }
        lemma_join_single_line(parts.drop_last());
        assert(single_line(parts[parts.len() - 1]));
        lemma_single_line_add(join(parts.drop_last(), seq![',']), seq![',']);
        lemma_single_line_add(join(parts.drop_last(), seq![',']) + seq![','], parts.last());
    }
}

/// Joined texts without line feed hold no line feed between brackets either.
pub proof fn lemma_enclosed_single_line(open: char, parts: Seq<Seq<char>>, close: char)
    requires
        single_lines(parts),
        open != '\n',
        close != '\n',
    ensures
        single_line(seq![open] + join(parts, seq![',']) + seq![close]),
{
    lemma_join_single_line(parts);
    lemma_single_line_add(seq![open], join(parts, seq![',']));
    lemma_single_line_add(seq![open] + join(parts, seq![',']), seq![close]);
}

/// No line feed stands in a named text.
pub proof fn lemma_entry_single_line(entry: EntryView)
    ensures
        single_line(entry_text(entry)),
{
    lemma_quoted_single_line(entry.name);
    lemma_quoted_single_line(entry.text);
    lemma_single_line_add(quoted(entry.name), seq![':']);
    lemma_single_line_add(quoted(entry.name) + seq![':'], quoted(entry.text));
}

/// No line feed stands in a record.
pub proof fn lemma_record_single_line(entries: Seq<EntryView>)
    ensures
        single_line(record_text(entries)),
{
    let parts = entry_parts(entries);
    assert forall|i: int| 0 <= i < parts.len() implies single_line(#[trigger] parts[i]) by {
        lemma_entry_single_line(entries[i]);
    }
    lemma_enclosed_single_line('{', parts, '}');
}

/// No line feed stands in a value.
pub proof fn lemma_value_single_line(value: ValueView)
    ensures
        single_line(value_text(value)),
{
    match value {
        ValueView::Text(text) => {
            lemma_quoted_single_line(text);
        },
        ValueView::List(items) => {
            let parts = quoted_items(items);
            assert forall|i: int| 0 <= i < parts.len() implies single_line(#[trigger] parts[i]) by {
                lemma_quoted_single_line(items[i]);
            }
            lemma_enclosed_single_line('[', parts, ']');
        },
        ValueView::Record(entries) => {
            lemma_record_single_line(entries);
        },
        ValueView::Records(records) => {
            let parts = record_parts(records);
            assert forall|i: int| 0 <= i < parts.len() implies single_line(#[trigger] parts[i]) by {
                lemma_record_single_line(records[i]);
            }
            lemma_enclosed_single_line('[', parts, ']');
        },
    }
}

/// No line feed stands in a document that is written as JSON.
pub proof fn lemma_document_single_line(document: Seq<FieldView>)
    ensures
        single_line(document_text(document)),
{
    let parts = field_parts(document);
    assert forall|i: int| 0 <= i < parts.len() implies single_line(#[trigger] parts[i]) by {
        let field = document[i];
        lemma_quoted_single_line(field.name);
        lemma_value_single_line(field.value);
        lemma_single_line_add(quoted(field.name), seq![':']);
        lemma_single_line_add(quoted(field.name) + seq![':'], value_text(field.value));
    }
    lemma_enclosed_single_line('{', parts, '}');
}

} // verus!
