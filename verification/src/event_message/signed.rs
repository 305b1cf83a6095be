use crate::error::outcome;
use crate::error::Error;
use crate::error::Failure;
use crate::event_message::parsed_message;
use crate::event_message::EventMessage;
use crate::event_message::EventMessageView;
use crate::prefix::AttachedSignaturePrefix;
use crate::prefix::attached_signature::get_sig_count;
use crate::prefix::attached_signature::lemma_sig_count;
use crate::prefix::attached_signature::parse_sig_count;
use crate::prefix::attached_signature::sig_count_text;
use crate::prefix::attached_signature::sig_count_value;
use crate::prefix::attached_signature::AttachedSignatureView;
use crate::util::base64::is_base64_text;
use crate::util::json::lemma_join_step;
use crate::util::json_lines::lemma_document_single_line;
use crate::util::json_parser::parsed;
use crate::util::lines::lemma_lines_of_join;
use crate::util::lines::lines;
use crate::util::lines::single_line;
use crate::util::lines::split_lines;
use crate::util::reading::lemma_parsed_all_final;
use crate::util::reading::lemma_parsed_all_reads_back;
use crate::util::reading::parsed_all;
use crate::util::sequence::push_item;
use crate::util::sequence::views;
use crate::util::text::chars_of;
use crate::util::text::continued;
use crate::util::text::join;
use crate::util::text::lemma_continued_front;
use crate::util::text::lemma_join_first;
use crate::util::text::push_char;
use vstd::prelude::*;
use vstd::string::StrSliceExecFns;
use vstd::string::StringExecFns;

verus! {

/// The texts of a list of attached signatures, in order.
pub open spec fn signature_texts(signatures: Seq<AttachedSignatureView>) -> Seq<Seq<char>> {
    Seq::new(signatures.len(), |i: int| signatures[i].text())
}

/// Whether every signature of a list can be written as text on this machine.
pub open spec fn signatures_encodable(signatures: Seq<AttachedSignatureView>) -> bool {
    forall|i: int| 0 <= i < signatures.len() ==> (#[trigger] signatures[i]).encodable()
}

/// Whether every signature of a list can be written as text on this machine.
pub fn are_signatures_encodable(signatures: &Vec<AttachedSignaturePrefix>) -> (ok: bool)
    ensures
        ok == signatures_encodable(views(signatures@)),
{
    let mut i: usize = 0;
    while i < signatures.len()
        invariant
            i <= signatures.len(),
            forall|j: int| 0 <= j < i ==> (#[trigger] views(signatures@)[j]).encodable(),
        decreases signatures.len() - i,
    {
        if !signatures[i].is_encodable() {
            assert(!views(signatures@)[i as int].encodable());
            return false;
        }
        i = i + 1;
    }
    true
}

/// A signed message as text: the message as JSON, the marker that announces
/// the number of signatures, and the signatures, each on a line of its own.
/// A line feed stands after the message and after the marker, and between
/// each two signatures.
pub open spec fn signed_text(message: EventMessageView) -> Seq<char> {
    message.wire() + seq!['\n'] + sig_count_text(message.signatures.len()) + seq!['\n'] + join(
        signature_texts(message.signatures),
        seq!['\n'],
    )
}

/// What a message with more signatures than the marker can announce is refused with.
pub open spec fn refusal_count() -> Seq<char> {
    "More signatures than the count can state"@
}

/// Writes a signed message as text: the message as JSON, then the number of
/// signatures and the signatures, each on a line of its own. The text reads
/// back as the message.
///
/// Fails with `SerializationError` where there are more signatures than
/// the marker can announce, which are 65535, and only there.
pub fn serialize_signed_message_json(message: &EventMessage) -> (res: Result<String, Error>)
    requires
        message@.encodable(),
        signatures_encodable(message@.signatures),
    ensures
        match res {
            Ok(text) => {
                &&& message@.signatures.len() <= u16::MAX
                &&& text@ == signed_text(message@)
                &&& parsed_signed(text@) == Ok::<EventMessageView, Failure>(message@)
            },
            Err(e) => {
                &&& message@.signatures.len() > u16::MAX
                &&& e@ == Failure::Serialization(refusal_count())
            },
        },
{
    if message.signatures.len() > 65535 {
        return Err(Error::serialization("More signatures than the count can state"));
    }
    let mut text = crate::util::json::to_string(&message.to_document());
    push_char(&mut text, '\n');
    let marker = get_sig_count(message.signatures.len() as u16);
    text.append(marker.as_str());
    push_char(&mut text, '\n');
    let ghost head = text@;
    let ghost parts = signature_texts(message@.signatures);
    let mut i: usize = 0;
    while i < message.signatures.len()
        invariant
            i <= message.signatures.len(),
            signatures_encodable(message@.signatures),
            parts == signature_texts(message@.signatures),
            text@ == head + join(parts.take(i as int), seq!['\n']),
            forall|j: int| 0 <= j < i ==> (#[trigger] message@.signatures[j]).readable(),
        decreases message.signatures.len() - i,
    {
        proof {
            lemma_join_step(parts, seq!['\n'], i as int);
            assert(message@.signatures[i as int].encodable());
        }
        if i > 0 {
            push_char(&mut text, '\n');
        }
        let signature = message.signatures[i].to_str();
        text.append(signature.as_str());
        i = i + 1;
        assert(text@ =~= head + join(parts.take(i as int), seq!['\n']));
    }
    assert(parts.take(parts.len() as int) =~= parts);
    assert(text@ =~= signed_text(message@));
    proof {
        law_signed_message_reads_back(message@);
    }
    Ok(text)
}

/// Whether the text of every signature of a list reads back as the signature.
pub open spec fn signatures_readable(signatures: Seq<AttachedSignatureView>) -> bool {
    forall|i: int| 0 <= i < signatures.len() ==> (#[trigger] signatures[i]).readable()
}

/// How the text of an attached signature is read.
pub open spec fn signature_parser() -> spec_fn(Seq<char>) -> Result<
    AttachedSignatureView,
    Failure,
> {
    |text: Seq<char>| AttachedSignatureView::parse(text)
}

/// The signatures that the lines after the marker stand for. Where none is
/// announced, one empty line must follow the marker; else as many lines as
/// are announced, each a signature.
pub open spec fn parsed_signatures(found: Seq<Seq<char>>, count: u16) -> Result<
    Seq<AttachedSignatureView>,
    Failure,
> {
    if count == 0 {
        if found.len() == 3 && found[2].len() == 0 {
            Ok(Seq::empty())
        } else {
            Err(Failure::Deserialization)
        }
    } else if found.len() != 2 + count {
        Err(Failure::Deserialization)
    } else {
        parsed_all(found.skip(2), signature_parser())
    }
}

/// The signed message that lines stand for: the first line is the message
/// as JSON, the second the marker that announces the number of signatures,
/// and the signatures follow, each on a line of its own.
#[verifier::opaque]
pub open spec fn assembled(found: Seq<Seq<char>>) -> Result<EventMessageView, Failure> {
    if found.len() < 3 {
        Err(Failure::Deserialization)
    } else {
        match parsed_message(found[0]) {
            Err(failure) => Err(failure),
            Ok(message) => match sig_count_value(found[1]) {
                Err(failure) => Err(failure),
                Ok(count) => match parsed_signatures(found, count) {
                    Err(failure) => Err(failure),
                    Ok(signatures) => Ok(EventMessageView { signatures, ..message }),
                },
            },
        }
    }
}

/// The signed message that a text stands for: the message that its lines
/// stand for.
pub open spec fn parsed_signed(text: Seq<char>) -> Result<EventMessageView, Failure> {
    assembled(lines(text))
}

/// Text of base64 characters holds no line feed.
pub proof fn lemma_base64_single_line(text: Seq<char>)
    requires
        is_base64_text(text),
    ensures
        single_line(text),
{
    assert forall|i: int| 0 <= i < text.len() implies #[trigger] text[i] != '\n' by {
        assert(crate::util::base64::is_base64_char(text[i]));
    }
}

/// The lines of a signed message: the message, the marker, and the
/// signatures, or an empty line where there is no signature.
pub open spec fn signed_lines(message: EventMessageView) -> Seq<Seq<char>> {
    seq![message.wire(), sig_count_text(message.signatures.len())] + if message.signatures.len()
        == 0 {
        seq![Seq::<char>::empty()]
    } else {
        signature_texts(message.signatures)
    }
}

/// A signed message is its lines joined by line feeds.
pub proof fn lemma_signed_text_lines(message: EventMessageView)
    ensures
        signed_text(message) == join(signed_lines(message), seq!['\n']),
{
    let sep = seq!['\n'];
    let parts = signed_lines(message);
    let texts = signature_texts(message.signatures);
    let last = if message.signatures.len() == 0 {
        seq![Seq::<char>::empty()]
    } else {
        texts
    };
    let rest = seq![sig_count_text(message.signatures.len())] + last;
    assert(parts =~= seq![message.wire()] + rest);
    lemma_join_first(message.wire(), rest, sep);
    lemma_continued_front(rest, sep);
    assert(rest.drop_first() =~= last);
    lemma_continued_front(last, sep);
    if message.signatures.len() == 0 {
        assert(last.drop_first() =~= Seq::<Seq<char>>::empty());
        assert(join(texts, sep) =~= Seq::<char>::empty());
        assert(continued(last, sep) =~= sep);
    } else {
        assert(last =~= seq![last[0]] + last.drop_first());
        lemma_join_first(last[0], last.drop_first(), sep);
        assert(continued(last, sep) =~= sep + join(texts, sep));
    }
    assert(signed_text(message) =~= join(parts, sep));
}

/// The lines of a signed message that is written as text are the message,
/// the marker and the signatures.
pub proof fn lemma_signed_lines(message: EventMessageView)
    requires
        signatures_readable(message.signatures),
        message.signatures.len() <= u16::MAX,
    ensures
        lines(signed_text(message)) == signed_lines(message),
{
    let parts = signed_lines(message);
    let texts = signature_texts(message.signatures);
    let count = message.signatures.len() as u16;
    lemma_signed_text_lines(message);
    lemma_document_single_line(message.document());
    lemma_sig_count(count);
    lemma_base64_single_line(sig_count_text(count as nat));
    assert forall|i: int| 0 <= i < parts.len() implies single_line(#[trigger] parts[i]) by {
        if i >= 2 && message.signatures.len() > 0 {
            assert(parts[i] == texts[i - 2]);
            assert(is_base64_text(texts[i - 2])) by {
                assert(message.signatures[i - 2].readable());
            }
            lemma_base64_single_line(texts[i - 2]);
        }
    }
    lemma_lines_of_join(parts);
}

/// The lines of a signed message after the marker read back as its signatures.
pub proof fn lemma_signatures_read_back(message: EventMessageView)
    requires
        signatures_readable(message.signatures),
        message.signatures.len() <= u16::MAX,
    ensures
        parsed_signatures(signed_lines(message), message.signatures.len() as u16) == Ok::<
            Seq<AttachedSignatureView>,
            Failure,
        >(message.signatures),
{
    let parts = signed_lines(message);
    let texts = signature_texts(message.signatures);
    if message.signatures.len() == 0 {
        assert(parts.len() == 3);
        assert(parts[2].len() == 0);
        assert(message.signatures =~= Seq::<AttachedSignatureView>::empty());
    } else {
        assert(parts.skip(2) =~= texts);
        assert forall|i: int| 0 <= i < texts.len() implies signature_parser()(#[trigger] texts[i])
            == Ok::<AttachedSignatureView, Failure>(message.signatures[i]) by {
            assert(message.signatures[i].readable());
        }
        lemma_parsed_all_reads_back(texts, message.signatures, signature_parser());
    }
}

/// The lines of a signed message read back as the message.
pub proof fn lemma_assembled(
    message: EventMessageView,
    found: Seq<Seq<char>>,
    count: u16,
)
    requires
        found.len() >= 3,
        parsed_message(found[0]) == Ok::<EventMessageView, Failure>(message.unsigned()),
        sig_count_value(found[1]) == Ok::<u16, Failure>(count),
        parsed_signatures(found, count) == Ok::<Seq<AttachedSignatureView>, Failure>(
            message.signatures,
        ),
    ensures
        assembled(found) == Ok::<EventMessageView, Failure>(message),
{
    reveal(assembled);
}

/// The lines of a signed message have the message first and the marker second.
pub proof fn lemma_signed_lines_shape(message: EventMessageView)
    ensures
        signed_lines(message).len() >= 3,
        signed_lines(message)[0] == message.wire(),
        signed_lines(message)[1] == sig_count_text(message.signatures.len()),
{
}

/// The lines of a signed message read back as the message.
pub proof fn lemma_signed_lines_assemble(message: EventMessageView)
    requires
        message.readable(),
        signatures_readable(message.signatures),
        message.signatures.len() <= u16::MAX,
    ensures
        assembled(signed_lines(message)) == Ok::<EventMessageView, Failure>(message),
{
    let count = message.signatures.len() as u16;
    lemma_signed_lines_shape(message);
    lemma_signatures_read_back(message);
    lemma_sig_count(count);
    message.lemma_reads_back();
    lemma_assembled(message, signed_lines(message), count);
}

/// A signed message that is written as text reads back as the same
/// message, signatures included, as long as the texts of its prefixes and
/// signatures read back and the number of signatures fits the marker.
pub proof fn law_signed_message_reads_back(message: EventMessageView)
    requires
        message.readable(),
        signatures_readable(message.signatures),
        message.signatures.len() <= u16::MAX,
    ensures
        parsed_signed(signed_text(message)) == Ok::<EventMessageView, Failure>(message),
{
    lemma_signed_lines(message);
    lemma_signed_lines_assemble(message);
}

/// Reads each line from the third on as an attached signature; the first
/// line that cannot be read ends the reading with its error.
fn read_signature_lines(found: &Vec<String>) -> (res: Result<Vec<AttachedSignaturePrefix>, Error>)
    requires
        found@.len() >= 2,
    ensures
        match res {
            Ok(signatures) => parsed_all(views(found@).skip(2), signature_parser()) == Ok::<
                Seq<AttachedSignatureView>,
                Failure,
            >(views(signatures@)),
            Err(e) => parsed_all(views(found@).skip(2), signature_parser()) == Err::<
                Seq<AttachedSignatureView>,
                Failure,
            >(e@),
        },
{
    let ghost texts = views(found@).skip(2);
    let mut signatures: Vec<AttachedSignaturePrefix> = Vec::new();
    let mut i: usize = 2;
    assert(views(signatures@) =~= Seq::<AttachedSignatureView>::empty());
    while i < found.len()
        invariant
            2 <= i <= found.len(),
            texts == views(found@).skip(2),
            parsed_all(texts.take(i - 2), signature_parser()) == Ok::<
                Seq<AttachedSignatureView>,
                Failure,
            >(views(signatures@)),
        decreases found.len() - i,
    {
        assert(texts.take(i - 2 + 1).drop_last() =~= texts.take(i - 2));
        assert(texts.take(i - 2 + 1).last() == found@[i as int]@);
        match AttachedSignaturePrefix::from_str(found[i].as_str()) {
            Ok(signature) => {
                push_item(&mut signatures, signature);
            },
            Err(e) => {
                proof {
                    lemma_parsed_all_final(texts, signature_parser(), i - 2 + 1);
                }
                return Err(e);
            },
        }
        i = i + 1;
    }
    assert(texts.take(texts.len() as int) =~= texts);
    Ok(signatures)
}

/// Reads a signed message from text: the message as JSON on the first
/// line, the marker that announces the number of signatures on the second,
/// and the signatures, each on a line of its own.
///
/// The first line is read with white space between its tokens and with its
/// members in any order; members of other names are passed over.
///
/// Fails with `DeserializationError` where there are fewer than three
/// lines, where the first is no JSON object of texts, lists and records or
/// lacks a member of the message, and where the lines after the marker are
/// not as many as it announces; with
/// `IntegerParseValue` where a number cannot be read; and with the error of
/// the prefix or signature that cannot be read.
pub fn parse_signed_message_json(message: &str) -> (res: Result<EventMessage, Error>)
    ensures
        outcome(res) == parsed_signed(message@),
{
    proof {
        reveal(assembled);
    }
    let chars = chars_of(message);
    let found = split_lines(&chars);
    if found.len() < 3 {
        return Err(Error::DeserializationError);
    }
    let ghost all = views(found@);
    assert(all[0] == found@[0]@ && all[1] == found@[1]@ && all[2] == found@[2]@);
    let document = match crate::util::json_parser::from_str(found[0].as_str()) {
        Ok(document) => document,
        Err(e) => {
            return Err(e);
        },
    };
    let mut parsed = match EventMessage::from_document(&document) {
        Ok(parsed) => parsed,
        Err(e) => {
            return Err(e);
        },
    };
    let count = match parse_sig_count(found[1].as_str()) {
        Ok(count) => count,
        Err(e) => {
            return Err(e);
        },
    };
    if count == 0 {
        if found.len() == 3 && found[2].as_str().unicode_len() == 0 {
            return Ok(parsed);
        } else {
            return Err(Error::DeserializationError);
        }
    }
    if found.len() - 2 != count as usize {
        return Err(Error::DeserializationError);
    }
    let signatures = match read_signature_lines(&found) {
        Ok(signatures) => signatures,
        Err(e) => {
            return Err(e);
        },
    };
    parsed.signatures = signatures;
    Ok(parsed)
}

} // verus!
