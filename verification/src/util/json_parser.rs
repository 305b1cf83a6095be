use crate::error::outcome;
use crate::error::Error;
use crate::error::Failure;
use crate::util::document::Document;
use crate::util::document::Entry;
use crate::util::document::EntryView;
use crate::util::document::Field;
use crate::util::document::FieldView;
use crate::util::document::Record;
use crate::util::document::Value;
use crate::util::document::ValueView;
use crate::util::sequence::push_item;
use crate::util::sequence::views;
use crate::util::text::chars_of;
use crate::util::text::hex_digit_value;
use crate::util::text::push_char;
use crate::util::text::read_hex_digit;
use vstd::prelude::*;

verus! {

/// The character that the escape at position `i` stands for, and the
/// position after the escape. The escapes are those of the quote, the
/// backslash, the five named control characters, and `\u00` with two
/// hexadecimal digits for a control character.
pub open spec fn unescaped(s: Seq<char>, i: int) -> Option<(char, int)> {
    if i + 1 >= s.len() {
        None
    } else {
        let c = s[i + 1];
        if c == '"' {
            Some(('"', i + 2))
        } else if c == '\\' {
            Some(('\\', i + 2))
        } else if c == 'b' {
            Some(('\u{08}', i + 2))
        } else if c == 'f' {
            Some(('\u{0c}', i + 2))
        } else if c == 'n' {
            Some(('\n', i + 2))
        } else if c == 'r' {
            Some(('\r', i + 2))
        } else if c == 't' {
            Some(('\t', i + 2))
        } else if c == 'u' && i + 5 < s.len() && s[i + 2] == '0' && s[i + 3] == '0' {
            match (hex_digit_value(s[i + 4]), hex_digit_value(s[i + 5])) {
                (Some(high), Some(low)) => if high * 16 + low < 0x20 {
                    Some((((high * 16 + low) as u8) as char, i + 6))
                } else {
                    None
                },
                _ => None,
            }
        } else {
            None
        }
    }
}

/// A text and the position after it, with `head` put before the text.
pub open spec fn after<T>(head: Seq<T>, found: Option<(Seq<T>, int)>) -> Option<(Seq<T>, int)> {
    match found {
        Some((rest, end)) => Some((head + rest, end)),
        None => None,
    }
}

/// The text that stands from position `i` up to the closing quote, and the
/// position after that quote. A control character may not stand there as it is.
pub open spec fn string_body(s: Seq<char>, i: int) -> Option<(Seq<char>, int)>
    decreases s.len() - i,
{
    if i < 0 || i >= s.len() {
        None
    } else if s[i] == '"' {
        Some((Seq::empty(), i + 1))
    } else if s[i] == '\\' {
        match unescaped(s, i) {
            Some((c, next)) => if next > i {
                after(seq![c], string_body(s, next))
            } else {
                None
            },
            None => None,
        }
    } else if (s[i] as u32) < 0x20 {
        None
    } else {
        after(seq![s[i]], string_body(s, i + 1))
    }
}

/// White space between the tokens of JSON: the space, the tabulator, the
/// line feed and the carriage return.
pub open spec fn is_blank(c: char) -> bool {
    c == ' ' || c == '\t' || c == '\n' || c == '\r'
}

/// The first position from `i` on at which no white space stands.
pub open spec fn skip_blank(s: Seq<char>, i: int) -> int
    decreases s.len() - i,
{
    if 0 <= i < s.len() && is_blank(s[i]) {
        skip_blank(s, i + 1)
    } else {
        i
    }
}

/// The quoted text that starts at position `i`, after white space if there
/// is any, and the position after it.
pub open spec fn string_at(s: Seq<char>, i: int) -> Option<(Seq<char>, int)> {
    let start = skip_blank(s, i);
    if 0 <= start < s.len() && s[start] == '"' {
        string_body(s, start + 1)
    } else {
        None
    }
}

/// The texts that follow one that has been read, up to the closing bracket:
/// each after a comma.
pub open spec fn strings_after(s: Seq<char>, i: int) -> Option<(Seq<Seq<char>>, int)>
    decreases s.len() - i,
{
    let here = skip_blank(s, i);
    if here < 0 || here >= s.len() {
        None
    } else if s[here] == ']' {
        Some((Seq::empty(), here + 1))
    } else if s[here] == ',' {
        match string_at(s, here + 1) {
            Some((item, next)) => if i < next <= s.len() {
                after(seq![item], strings_after(s, next))
            } else {
                None
            },
            None => None,
        }
    } else {
        None
    }
}

/// The named text that starts at position `i`, and the position after it.
pub open spec fn entry_at(s: Seq<char>, i: int) -> Option<(EntryView, int)> {
    match string_at(s, i) {
        Some((name, end)) => {
            let colon = skip_blank(s, end);
            if 0 <= colon < s.len() && s[colon] == ':' {
                match string_at(s, colon + 1) {
                    Some((text, end)) => Some((EntryView { name, text }, end)),
                    None => None,
                }
            } else {
                None
            }
        },
        None => None,
    }
}

/// The entries that follow one that has been read, up to the closing brace.
pub open spec fn entries_after(s: Seq<char>, i: int) -> Option<(Seq<EntryView>, int)>
    decreases s.len() - i,
{
    let here = skip_blank(s, i);
    if here < 0 || here >= s.len() {
        None
    } else if s[here] == '}' {
        Some((Seq::empty(), here + 1))
    } else if s[here] == ',' {
        match entry_at(s, here + 1) {
            Some((entry, next)) => if i < next <= s.len() {
                after(seq![entry], entries_after(s, next))
            } else {
                None
            },
            None => None,
        }
    } else {
        None
    }
}

/// The record that starts at position `i`, and the position after it.
pub open spec fn record_at(s: Seq<char>, i: int) -> Option<(Seq<EntryView>, int)> {
    let start = skip_blank(s, i);
    if 0 <= start < s.len() && s[start] == '{' {
        let inside = skip_blank(s, start + 1);
        if inside < s.len() && s[inside] == '}' {
            Some((Seq::empty(), inside + 1))
        } else {
            match entry_at(s, start + 1) {
                Some((entry, next)) => after(seq![entry], entries_after(s, next)),
                None => None,
            }
        }
    } else {
        None
    }
}

/// The records that follow one that has been read, up to the closing bracket.
pub open spec fn records_after(s: Seq<char>, i: int) -> Option<(Seq<Seq<EntryView>>, int)>
    decreases s.len() - i,
{
    let here = skip_blank(s, i);
    if here < 0 || here >= s.len() {
        None
    } else if s[here] == ']' {
        Some((Seq::empty(), here + 1))
    } else if s[here] == ',' {
        match record_at(s, here + 1) {
            Some((record, next)) => if i < next <= s.len() {
                after(seq![record], records_after(s, next))
            } else {
                None
            },
            None => None,
        }
    } else {
        None
    }
}

/// The value that starts at position `i`, and the position after it: a
/// quoted text, a record, or in square brackets texts or records. Empty
/// brackets are an empty list of texts.
pub open spec fn value_at(s: Seq<char>, i: int) -> Option<(ValueView, int)> {
    let start = skip_blank(s, i);
    if start < 0 || start >= s.len() {
        None
    } else if s[start] == '"' {
        match string_at(s, start) {
            Some((text, end)) => Some((ValueView::Text(text), end)),
            None => None,
        }
    } else if s[start] == '{' {
        match record_at(s, start) {
            Some((entries, end)) => Some((ValueView::Record(entries), end)),
            None => None,
        }
    } else if s[start] == '[' {
        let inside = skip_blank(s, start + 1);
        if inside >= s.len() {
            None
        } else if s[inside] == ']' {
            Some((ValueView::List(Seq::empty()), inside + 1))
        } else if s[inside] == '"' {
            match string_at(s, inside) {
                Some((item, next)) => match strings_after(s, next) {
                    Some((rest, end)) => Some((ValueView::List(seq![item] + rest), end)),
                    None => None,
                },
                None => None,
            }
        } else {
            match record_at(s, inside) {
                Some((record, next)) => match records_after(s, next) {
                    Some((rest, end)) => Some((ValueView::Records(seq![record] + rest), end)),
                    None => None,
                },
                None => None,
            }
        }
    } else {
        None
    }
}

/// The named value that starts at position `i`, and the position after it.
pub open spec fn field_at(s: Seq<char>, i: int) -> Option<(FieldView, int)> {
    match string_at(s, i) {
        Some((name, end)) => {
            let colon = skip_blank(s, end);
            if 0 <= colon < s.len() && s[colon] == ':' {
                match value_at(s, colon + 1) {
                    Some((value, end)) => Some((FieldView { name, value }, end)),
                    None => None,
                }
            } else {
                None
            }
        },
        None => None,
    }
}

/// The fields that follow one that has been read, up to the closing brace.
pub open spec fn fields_after(s: Seq<char>, i: int) -> Option<(Seq<FieldView>, int)>
    decreases s.len() - i,
{
    let here = skip_blank(s, i);
    if here < 0 || here >= s.len() {
        None
    } else if s[here] == '}' {
        Some((Seq::empty(), here + 1))
    } else if s[here] == ',' {
        match field_at(s, here + 1) {
            Some((field, next)) => if i < next <= s.len() {
                after(seq![field], fields_after(s, next))
            } else {
                None
            },
            None => None,
        }
    } else {
        None
    }
}

/// The document that starts at position `i`, and the position after it.
pub open spec fn document_at(s: Seq<char>, i: int) -> Option<(Seq<FieldView>, int)> {
    let start = skip_blank(s, i);
    if 0 <= start < s.len() && s[start] == '{' {
        let inside = skip_blank(s, start + 1);
        if inside < s.len() && s[inside] == '}' {
            Some((Seq::empty(), inside + 1))
        } else {
            match field_at(s, start + 1) {
                Some((field, next)) => after(seq![field], fields_after(s, next)),
                None => None,
            }
        }
    } else {
        None
    }
}

/// The document that a JSON text stands for: one object whose members are
/// texts, lists of texts, records of texts or lists of such records. White
/// space may stand between the tokens, and nothing but white space after
/// the closing brace. Any other text is malformed.
pub open spec fn parsed(s: Seq<char>) -> Result<Seq<FieldView>, Failure> {
    match document_at(s, 0) {
        Some((document, end)) => if skip_blank(s, end) == s.len() {
            Ok(document)
        } else {
            Err(Failure::Deserialization)
        },
        None => Err(Failure::Deserialization),
    }
}

/// White space is skipped up to a position that is not before the start nor
/// after the end, and at which no white space stands.
pub proof fn lemma_skip_blank(s: Seq<char>, i: int)
    requires
        0 <= i <= s.len(),
    ensures
        i <= skip_blank(s, i) <= s.len(),
        skip_blank(s, i) < s.len() ==> !is_blank(s[skip_blank(s, i)]),
        skip_blank(s, skip_blank(s, i)) == skip_blank(s, i),
    decreases s.len() - i,
{
    if i < s.len() && is_blank(s[i]) {
        lemma_skip_blank(s, i + 1);
    }
}

/// Skips white space from position `i` on.
pub fn skip(s: &Vec<char>, i: usize) -> (here: usize)
    requires
        i <= s.len(),
    ensures
        here == skip_blank(s@, i as int),
        i <= here <= s.len(),
{
    let mut here = i;
    while here < s.len() && (s[here] == ' ' || s[here] == '\t' || s[here] == '\n' || s[here]
        == '\r')
        invariant
            i <= here <= s.len(),
            skip_blank(s@, i as int) == skip_blank(s@, here as int),
        decreases s.len() - here,
    {
        here = here + 1;
    }
    here
}

fn read_escape(s: &Vec<char>, i: usize) -> (res: Option<(char, usize)>)
    requires
        i < s.len(),
    ensures
        match res {
            Some((c, next)) => unescaped(s@, i as int) == Some((c, next as int)) && i < next
                <= s.len(),
            None => unescaped(s@, i as int) is None,
        },
{
    if s.len() - i < 2 {
        return None;
    }
    let c = s[i + 1];
    if c == '"' {
        Some(('"', i + 2))
    } else if c == '\\' {
        Some(('\\', i + 2))
    } else if c == 'b' {
        Some(('\u{08}', i + 2))
    } else if c == 'f' {
        Some(('\u{0c}', i + 2))
    } else if c == 'n' {
        Some(('\n', i + 2))
    } else if c == 'r' {
        Some(('\r', i + 2))
    } else if c == 't' {
        Some(('\t', i + 2))
    } else if c == 'u' && s.len() - i > 5 && s[i + 2] == '0' && s[i + 3] == '0' {
        match (read_hex_digit(s[i + 4]), read_hex_digit(s[i + 5])) {
            (Some(high), Some(low)) => {
                if high * 16 + low < 0x20 {
                    Some(((high * 16 + low) as char, i + 6))
                } else {
                    None
                }
            },
            _ => None,
        }
    } else {
        None
    }
}

/// Reads the quoted text that starts at position `i`, after white space if
/// there is any.
pub fn read_string(s: &Vec<char>, i: usize) -> (res: Option<(String, usize)>)
    ensures
        match res {
            Some((text, end)) => string_at(s@, i as int) == Some((text@, end as int)) && i < end
                <= s.len(),
            None => string_at(s@, i as int) is None,
        },
{
    if i >= s.len() {
        return None;
    }
    let start = skip(s, i);
    if start >= s.len() || s[start] != '"' {
        return None;
    }
    let mut text = String::new();
    let mut at: usize = start + 1;
    loop
        invariant
            i <= start < at <= s.len(),
            string_at(s@, i as int) == after(text@, string_body(s@, at as int)),
        decreases s.len() - at,
    {
        if at >= s.len() {
            return None;
        }
        let c = s[at];
        if c == '"' {
            assert(text@ + Seq::<char>::empty() =~= text@);
            return Some((text, at + 1));
        } else if c == '\\' {
            match read_escape(s, at) {
                Some((escaped, next)) => {
                    proof {
                        let rest = string_body(s@, next as int);
                        if rest is Some {
                            assert(text@ + (seq![escaped] + rest->Some_0.0) =~= text@.push(escaped)
                                + rest->Some_0.0);
                        }
                    }
                    push_char(&mut text, escaped);
                    at = next;
                },
                None => {
                    return None;
                },
            }
        } else if (c as u32) < 0x20 {
            return None;
        } else {
            proof {
                let rest = string_body(s@, at + 1);
                if rest is Some {
                    assert(text@ + (seq![c] + rest->Some_0.0) =~= text@.push(c) + rest->Some_0.0);
                }
            }
            push_char(&mut text, c);
            at = at + 1;
        }
    }
}

/// Putting an item before what was found, and then a head before that, is
/// putting the head with the item before what was found.
pub proof fn lemma_after<T>(head: Seq<T>, item: T, found: Option<(Seq<T>, int)>)
    ensures
        after(head, after(seq![item], found)) == after(head.push(item), found),
{
    match found {
        Some((rest, end)) => {
            assert(head + (seq![item] + rest) =~= head.push(item) + rest);
        },
        None => {},
    }
}

/// Putting a head before what was found keeps whether anything was found.
pub proof fn lemma_after_kept<T>(head: Seq<T>, found: Option<(Seq<T>, int)>)
    ensures
        found is None ==> after(head, found) is None,
        found is Some ==> after(head, found) is Some,
{
}

/// Reads the texts that follow one that has been read, up to the closing bracket, and puts them
/// after those given.
fn read_strings_after(
    s: &Vec<char>,
    i: usize,
    given: Vec<String>,
) -> (res: Option<(Vec<String>, usize)>)
    requires
        i <= s.len(),
    ensures
        match res {
            Some((items, end)) => after(views(given@), strings_after(s@, i as int)) == Some(
                (views(items@), end as int),
            ) && i < end <= s.len(),
            None => strings_after(s@, i as int) is None,
        },
{
    let mut items = given;
    let mut at: usize = i;
    proof {
        lemma_after_kept::<Seq<char>>(views(given@), strings_after(s@, i as int));
    }
    loop
        invariant
            i <= at <= s.len(),
            after(views(given@), strings_after(s@, i as int)) == after(
                views(items@),
                strings_after(s@, at as int),
            ),
            strings_after(s@, at as int) is None ==> strings_after(s@, i as int) is None,
        decreases s.len() - at,
    {
        let here = skip(s, at);
        if here >= s.len() {
            return None;
        }
        if s[here] == ']' {
            assert(views(items@) + Seq::<Seq<char>>::empty() =~= views(items@));
            return Some((items, here + 1));
        } else if s[here] == ',' {
            match read_string(s, here + 1) {
                Some((item, next)) => {
                    proof {
                        lemma_after::<Seq<char>>(
                            views(items@),
                            item@,
                            strings_after(s@, next as int),
                        );
                    }
                    push_item(&mut items, item);
                    at = next;
                },
                None => {
                    return None;
                },
            }
        } else {
            return None;
        }
    }
}

/// Reads the named text that starts at position `i`.
fn read_entry(s: &Vec<char>, i: usize) -> (res: Option<(Entry, usize)>)
    ensures
        match res {
            Some((entry, end)) => entry_at(s@, i as int) == Some((entry@, end as int)) && i < end
                <= s.len(),
            None => entry_at(s@, i as int) is None,
        },
{
    let (name, end) = match read_string(s, i) {
        Some(found) => found,
        None => {
            return None;
        },
    };
    let colon = skip(s, end);
    if colon >= s.len() || s[colon] != ':' {
        return None;
    }
    match read_string(s, colon + 1) {
        Some((text, end)) => Some((Entry { name, text }, end)),
        None => None,
    }
}

/// Reads the entries that follow one that has been read, up to the closing brace, and puts them
/// after those given.
fn read_entries_after(
    s: &Vec<char>,
    i: usize,
    given: Vec<Entry>,
) -> (res: Option<(Vec<Entry>, usize)>)
    requires
        i <= s.len(),
    ensures
        match res {
            Some((items, end)) => after(views(given@), entries_after(s@, i as int)) == Some(
                (views(items@), end as int),
            ) && i < end <= s.len(),
            None => entries_after(s@, i as int) is None,
        },
{
    let mut items = given;
    let mut at: usize = i;
    proof {
        lemma_after_kept::<EntryView>(views(given@), entries_after(s@, i as int));
    }
    loop
        invariant
            i <= at <= s.len(),
            after(views(given@), entries_after(s@, i as int)) == after(
                views(items@),
                entries_after(s@, at as int),
            ),
            entries_after(s@, at as int) is None ==> entries_after(s@, i as int) is None,
        decreases s.len() - at,
    {
        let here = skip(s, at);
        if here >= s.len() {
            return None;
        }
        if s[here] == '}' {
            assert(views(items@) + Seq::<EntryView>::empty() =~= views(items@));
            return Some((items, here + 1));
        } else if s[here] == ',' {
            match read_entry(s, here + 1) {
                Some((entry, next)) => {
                    proof {
                        lemma_after::<EntryView>(
                            views(items@),
                            entry@,
                            entries_after(s@, next as int),
                        );
                    }
                    push_item(&mut items, entry);
                    at = next;
                },
                None => {
                    return None;
                },
            }
        } else {
            return None;
        }
    }
}

/// Reads the record that starts at position `i`.
fn read_record(s: &Vec<char>, i: usize) -> (res: Option<(Record, usize)>)
    ensures
        match res {
            Some((record, end)) => record_at(s@, i as int) == Some((record@, end as int)) && i
                < end <= s.len(),
            None => record_at(s@, i as int) is None,
        },
{
    if i >= s.len() {
        return None;
    }
    let start = skip(s, i);
    if start >= s.len() || s[start] != '{' {
        return None;
    }
    let inside = skip(s, start + 1);
    if inside < s.len() && s[inside] == '}' {
        let record = Record { entries: Vec::new() };
        assert(record@ =~= Seq::empty());
        return Some((record, inside + 1));
    }
    let (entry, next) = match read_entry(s, start + 1) {
        Some(found) => found,
        None => {
            return None;
        },
    };
    let mut first: Vec<Entry> = Vec::new();
    let ghost entry_view = entry@;
    push_item(&mut first, entry);
    assert(views(first@) =~= seq![entry_view]);
    match read_entries_after(s, next, first) {
        Some((entries, end)) => Some((Record { entries }, end)),
        None => None,
    }
}

/// Reads the records that follow one that has been read, up to the closing bracket, and puts them
/// after those given.
fn read_records_after(
    s: &Vec<char>,
    i: usize,
    given: Vec<Record>,
) -> (res: Option<(Vec<Record>, usize)>)
    requires
        i <= s.len(),
    ensures
        match res {
            Some((items, end)) => after(views(given@), records_after(s@, i as int)) == Some(
                (views(items@), end as int),
            ) && i < end <= s.len(),
            None => records_after(s@, i as int) is None,
        },
{
    let mut items = given;
    let mut at: usize = i;
    proof {
        lemma_after_kept::<Seq<EntryView>>(views(given@), records_after(s@, i as int));
    }
    loop
        invariant
            i <= at <= s.len(),
            after(views(given@), records_after(s@, i as int)) == after(
                views(items@),
                records_after(s@, at as int),
            ),
            records_after(s@, at as int) is None ==> records_after(s@, i as int) is None,
        decreases s.len() - at,
    {
        let here = skip(s, at);
        if here >= s.len() {
            return None;
        }
        if s[here] == ']' {
            assert(views(items@) + Seq::<Seq<EntryView>>::empty() =~= views(items@));
            return Some((items, here + 1));
        } else if s[here] == ',' {
            match read_record(s, here + 1) {
                Some((record, next)) => {
                    proof {
                        lemma_after::<Seq<EntryView>>(
                            views(items@),
                            record@,
                            records_after(s@, next as int),
                        );
                    }
                    push_item(&mut items, record);
                    at = next;
                },
                None => {
                    return None;
                },
            }
        } else {
            return None;
        }
    }
}

/// Reads the value that starts at position `i`.
fn read_value(s: &Vec<char>, i: usize) -> (res: Option<(Value, usize)>)
    ensures
        match res {
            Some((value, end)) => value_at(s@, i as int) == Some((value@, end as int)) && i < end
                <= s.len(),
            None => value_at(s@, i as int) is None,
        },
{
    if i >= s.len() {
        return None;
    }
    let start = skip(s, i);
    if start >= s.len() {
        return None;
    }
    proof {
        lemma_skip_blank(s@, i as int);
    }
    if s[start] == '"' {
        match read_string(s, start) {
            Some((text, end)) => Some((Value::Text(text), end)),
            None => None,
        }
    } else if s[start] == '{' {
        match read_record(s, start) {
            Some((record, end)) => Some((Value::Record(record), end)),
            None => None,
        }
    } else if s[start] == '[' {
        let inside = skip(s, start + 1);
        if inside >= s.len() {
            None
        } else if s[inside] == ']' {
            let items: Vec<String> = Vec::new();
            assert(views(items@) =~= Seq::empty());
            Some((Value::List(items), inside + 1))
        } else if s[inside] == '"' {
            let (item, next) = match read_string(s, inside) {
                Some(found) => found,
                None => {
                    return None;
                },
            };
            let mut first: Vec<String> = Vec::new();
            let ghost item_view = item@;
            push_item(&mut first, item);
            assert(views(first@) =~= seq![item_view]);
            match read_strings_after(s, next, first) {
                Some((items, end)) => Some((Value::List(items), end)),
                None => None,
            }
        } else {
            let (record, next) = match read_record(s, inside) {
                Some(found) => found,
                None => {
                    return None;
                },
            };
            let mut first: Vec<Record> = Vec::new();
            let ghost record_view = record@;
            push_item(&mut first, record);
            assert(views(first@) =~= seq![record_view]);
            match read_records_after(s, next, first) {
                Some((records, end)) => Some((Value::Records(records), end)),
                None => None,
            }
        }
    } else {
        None
    }
}

/// Reads the named value that starts at position `i`.
fn read_field(s: &Vec<char>, i: usize) -> (res: Option<(Field, usize)>)
    ensures
        match res {
            Some((field, end)) => field_at(s@, i as int) == Some((field@, end as int)) && i < end
                <= s.len(),
            None => field_at(s@, i as int) is None,
        },
{
    let (name, end) = match read_string(s, i) {
        Some(found) => found,
        None => {
            return None;
        },
    };
    let colon = skip(s, end);
    if colon >= s.len() || s[colon] != ':' {
        return None;
    }
    match read_value(s, colon + 1) {
        Some((value, end)) => Some((Field { name, value }, end)),
        None => None,
    }
}

/// Reads the fields that follow one that has been read, up to the closing brace, and puts them
/// after those given.
fn read_fields_after(
    s: &Vec<char>,
    i: usize,
    given: Vec<Field>,
) -> (res: Option<(Vec<Field>, usize)>)
    requires
        i <= s.len(),
    ensures
        match res {
            Some((items, end)) => after(views(given@), fields_after(s@, i as int)) == Some(
                (views(items@), end as int),
            ) && i < end <= s.len(),
            None => fields_after(s@, i as int) is None,
        },
{
    let mut items = given;
    let mut at: usize = i;
    proof {
        lemma_after_kept::<FieldView>(views(given@), fields_after(s@, i as int));
    }
    loop
        invariant
            i <= at <= s.len(),
            after(views(given@), fields_after(s@, i as int)) == after(
                views(items@),
                fields_after(s@, at as int),
            ),
            fields_after(s@, at as int) is None ==> fields_after(s@, i as int) is None,
        decreases s.len() - at,
    {
        let here = skip(s, at);
        if here >= s.len() {
            return None;
        }
        if s[here] == '}' {
            assert(views(items@) + Seq::<FieldView>::empty() =~= views(items@));
            return Some((items, here + 1));
        } else if s[here] == ',' {
            match read_field(s, here + 1) {
                Some((field, next)) => {
                    proof {
                        lemma_after::<FieldView>(
                            views(items@),
                            field@,
                            fields_after(s@, next as int),
                        );
                    }
                    push_item(&mut items, field);
                    at = next;
                },
                None => {
                    return None;
                },
            }
        } else {
            return None;
        }
    }
}

/// Reads a document from JSON: one object whose members are texts, lists
/// of texts, records of texts or lists of such records, with white space
/// between the tokens where there is any. Any other text is refused with a
/// `DeserializationError`.
pub fn from_str(text: &str) -> (res: Result<Document, Error>)
    ensures
        outcome(res) == parsed(text@),
{
    let s = chars_of(text);
    let start = skip(&s, 0);
    if start >= s.len() || s[start] != '{' {
        return Err(Error::DeserializationError);
    }
    let inside = skip(&s, start + 1);
    let (fields, end) = if inside < s.len() && s[inside] == '}' {
        let fields: Vec<Field> = Vec::new();
        assert(views(fields@) =~= Seq::<FieldView>::empty());
        (fields, inside + 1)
    } else {
        let (field, next) = match read_field(&s, start + 1) {
            Some(found) => found,
            None => {
                return Err(Error::DeserializationError);
            },
        };
        let mut first: Vec<Field> = Vec::new();
        let ghost field_view = field@;
        push_item(&mut first, field);
        assert(views(first@) =~= seq![field_view]);
        match read_fields_after(&s, next, first) {
            Some(found) => found,
            None => {
                return Err(Error::DeserializationError);
            },
        }
    };
    if skip(&s, end) == s.len() {
        Ok(Document { fields })
    } else {
        Err(Error::DeserializationError)
    }
}

} // verus!
