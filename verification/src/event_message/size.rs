use crate::event::EventView;
use crate::event_message::message_document;
use crate::event_message::serialized_size;
use crate::event_message::version_text;
use crate::event_message::EventMessageView;
use crate::prefix::attached_signature::AttachedSignatureView;
use crate::util::document::text_field;
use crate::util::document::FieldView;
use crate::util::json::document_text;
use crate::util::json::escaped;
use crate::util::json::escaped_char;
use crate::util::json::field_text;
use crate::util::json::quoted;
use crate::util::text::hex_text;
use crate::util::text::hex_text_padded;
use crate::util::text::is_hex_char;
use crate::util::text::continued;
use crate::util::text::lemma_join_first;
use crate::util::text::lemma_encode_utf8_concat;
use crate::util::text::lemma_hex_text;
use vstd::prelude::*;
use vstd::utf8::encode_utf8;
use vstd::utf8::is_ascii_chars;
use vstd::utf8::is_ascii_chars_encode_utf8;

verus! {

/// A character that stands for itself inside quotes and is plain ASCII.
pub open spec fn is_plain(c: char) -> bool {
    ' ' <= c <= '~' && c != '"' && c != '\\'
}

/// A text of plain characters stands for itself inside quotes, and takes one byte
/// for each character.
pub proof fn lemma_plain_text(text: Seq<char>)
    requires
        forall|i: int| 0 <= i < text.len() ==> is_plain(#[trigger] text[i]),
    ensures
        escaped(text) == text,
        encode_utf8(text).len() == text.len(),
    decreases text.len(),
{
    assert(is_ascii_chars(text)) by {
        assert forall|i: int| 0 <= i < text.len() implies '\0' <= #[trigger] text[i] <= '\u{7f}' by {
            assert(is_plain(text[i]));
        }
    }
    is_ascii_chars_encode_utf8(text);
    if text.len() > 0 {
        lemma_plain_text(text.drop_last());
        assert(is_plain(text.last()));
        assert(escaped_char(text.last()) =~= seq![text.last()]);
        assert(escaped(text) =~= text);
    } else {
        assert(escaped(text) =~= text);
    }
}

/// A version string is made of plain characters, seventeen of them as long
/// as six hexadecimal digits hold the size.
pub proof fn lemma_version_text(size: nat)
    ensures
        forall|i: int| 0 <= i < version_text(size).len() ==> is_plain(#[trigger] version_text(size)[i]),
        size < 0x100_0000 ==> version_text(size).len() == 17,
{
    lemma_hex_text(size);
    let digits = hex_text(size);
    let padded = hex_text_padded(size, 6);
    assert forall|i: int| 0 <= i < padded.len() implies is_hex_char(#[trigger] padded[i]) by {
        if digits.len() < 6 {
            if i >= 6 - digits.len() {
                assert(padded[i] == digits[i - (6 - digits.len())]);
            }
        }
    }
    let head = seq!['K', 'E', 'R', 'I', '1', '0', 'J', 'S', 'O', 'N'];
    assert forall|i: int| 0 <= i < version_text(size).len() implies is_plain(
        #[trigger] version_text(size)[i],
    ) by {
        if i < 10 {
            assert(version_text(size)[i] == head[i]);
        } else if i < 10 + padded.len() {
            assert(version_text(size)[i] == padded[i - 10]);
            assert(is_hex_char(padded[i - 10]));
        }
    }
}

/// The size of the JSON form of a message does not depend on which size its
/// version string states, as long as six hexadecimal digits hold it: so the
/// size measured with a zero in the version string is the size of the message.
pub proof fn lemma_size_with_version(
    event: EventView,
    size: nat,
    signatures: Seq<AttachedSignatureView>,
)
    requires
        size < 0x100_0000,
    ensures
        encode_utf8(document_text(message_document(version_text(size), event))).len()
            == encode_utf8(document_text(message_document(version_text(0), event))).len(),
        size == serialized_size(event) ==> (EventMessageView {
            version: version_text(size),
            event,
            signatures,
        }).well_formed(),
{
    lemma_wire_split(version_text(size), event);
    lemma_wire_split(version_text(0), event);
    lemma_version_text(size);
    lemma_version_text(0);
    lemma_plain_text(version_text(size));
    lemma_plain_text(version_text(0));
    let rest = Seq::new(event.fields().len(), |i: int| field_text(event.fields()[i]));
    let head = seq!['{'] + quoted("vs"@) + seq![':'] + seq!['"'];
    let tail = seq!['"'] + continued(rest, seq![',']) + seq!['}'];
    lemma_encode_utf8_concat(head, version_text(size) + tail);
    lemma_encode_utf8_concat(version_text(size), tail);
    lemma_encode_utf8_concat(head, version_text(0) + tail);
    lemma_encode_utf8_concat(version_text(0), tail);
    assert(head + version_text(size) + tail =~= head + (version_text(size) + tail));
    assert(head + version_text(0) + tail =~= head + (version_text(0) + tail));
}

/// The JSON form of a message is the version string between what stands
/// before it and what stands after it, neither of which depends on it.
pub proof fn lemma_wire_split(version: Seq<char>, event: EventView)
    ensures
        document_text(message_document(version, event)) == seq!['{'] + quoted("vs"@) + seq![':']
            + seq!['"'] + escaped(version) + (seq!['"'] + continued(
            Seq::new(event.fields().len(), |i: int| field_text(event.fields()[i])),
            seq![','],
        ) + seq!['}']),
{
    let document = message_document(version, event);
    let parts = Seq::new(document.len(), |i: int| field_text(document[i]));
    let rest = Seq::new(event.fields().len(), |i: int| field_text(event.fields()[i]));
    let first = field_text(text_field("vs"@, version));
    assert(parts =~= seq![first] + rest);
    lemma_join_first(first, rest, seq![',']);
    assert(first =~= quoted("vs"@) + seq![':'] + seq!['"'] + escaped(version) + seq!['"']);
    assert(document_text(document) =~= seq!['{'] + quoted("vs"@) + seq![':'] + seq!['"'] + escaped(
        version,
    ) + (seq!['"'] + continued(rest, seq![',']) + seq!['}']));
}

} // verus!
