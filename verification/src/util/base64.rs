use crate::error::outcome;
use crate::error::Base64Failure;
use crate::error::Error;
use crate::error::Failure;
use base64::DecodeError;
use vstd::prelude::*;
use vstd::string::StringSliceAdditionalSpecFns;
use vstd::utf8::encode_utf8;
use vstd::utf8::is_ascii_chars;
use vstd::utf8::is_ascii_chars_encode_utf8;

verus! {

/// The URL-safe base64 text of a byte sequence, with padding.
pub uninterp spec fn base64_text(data: Seq<u8>) -> Seq<char>;

/// The bytes that URL-safe base64 text stands for, or why the text is not valid.
pub uninterp spec fn base64_data(text: Seq<char>) -> Result<Seq<u8>, Base64Failure>;

/// A character of the URL-safe base64 alphabet, or the padding sign.
pub open spec fn is_base64_char(c: char) -> bool {
    ||| 'A' <= c <= 'Z'
    ||| 'a' <= c <= 'z'
    ||| '0' <= c <= '9'
    ||| c == '-'
    ||| c == '_'
    ||| c == '='
}

/// Text made of base64 characters only.
pub open spec fn is_base64_text(text: Seq<char>) -> bool {
    forall|i: int| 0 <= i < text.len() ==> is_base64_char(#[trigger] text[i])
}

/// Whether a byte sequence of this length can be encoded on this machine:
/// its text, of four characters for every three bytes or part of three, is no
/// longer than the longest buffer.
pub open spec fn encodable_len(len: nat) -> bool {
    (len / 3) * 4 + 4 <= isize::MAX
}

/// Whether a text is too long to be decoded on this machine: it has more
/// bytes than the longest buffer.
pub open spec fn too_long(text: Seq<char>) -> bool {
    encode_utf8(text).len() as usize > isize::MAX as usize
}

/// The bytes that base64 text stands for: a text that is too long for this
/// machine is malformed, and one that is not base64 cannot be decoded.
pub open spec fn decoded(text: Seq<char>) -> Result<Seq<u8>, Failure> {
    if too_long(text) {
        Err(Failure::Deserialization)
    } else {
        match base64_data(text) {
            Ok(data) => Ok(data),
            Err(failure) => Err(Failure::Base64Decoding(failure)),
        }
    }
}

/// Whether base64 text stands for the given bytes.
pub open spec fn reads_as(text: Seq<char>, data: Seq<u8>) -> bool {
    base64_data(text) == Ok::<Seq<u8>, Base64Failure>(data)
}

/// Encodes bytes as padded URL-safe base64.
///
/// Wraps `base64::encode_config` with `base64::URL_SAFE`. The call panics only
/// when the encoded size overflows `usize` or the buffer for the text cannot
/// be as long as that, which the precondition excludes.
/// The contract names the encoded text and states what the codec documents of
/// it: it is made of the URL-safe alphabet and `=`, it has four characters for
/// every three bytes or part of three, and decoding it gives the input back.
#[verifier::external_body]
pub(crate) fn encode(data: &[u8]) -> (text: String)
    requires
        encodable_len(data@.len()),
    ensures
        text@ == base64_text(data@),
        is_base64_text(text@),
        text@.len() == (data@.len() + 2) / 3 * 4,
        reads_as(text@, data@),
{
    base64::encode_config(data, base64::URL_SAFE)
}

/// Decodes padded URL-safe base64 text.
///
/// Wraps `base64::decode_config` with `base64::URL_SAFE` and hands its
/// error on variant by variant. The call panics only when the length of the
/// input in bytes plus seven overflows `usize` or the buffer for the decoded
/// bytes, three for every four of the input, cannot be as long as that; the
/// precondition excludes both. The contract names what decoding gives, the
/// bytes or the error, which depends on the text alone.
#[verifier::external_body]
pub(crate) fn decode(text: &str) -> (res: Result<Vec<u8>, Base64Failure>)
    requires
        !too_long(text@),
    ensures
        match res {
            Ok(data) => base64_data(text@) == Ok::<Seq<u8>, Base64Failure>(data@),
            Err(failure) => base64_data(text@) == Err::<Seq<u8>, Base64Failure>(failure),
        },
{
    match base64::decode_config(text, base64::URL_SAFE) {
        Ok(data) => Ok(data),
        Err(DecodeError::InvalidByte(place, byte)) => Err(Base64Failure::InvalidByte(place, byte)),
        Err(DecodeError::InvalidLength) => Err(Base64Failure::InvalidLength),
        Err(DecodeError::InvalidLastSymbol(place, byte)) => Err(
            Base64Failure::InvalidLastSymbol(place, byte),
        ),
    }
}

/// Whether so many bytes can be encoded on this machine.
pub fn fits(data: &[u8]) -> (ok: bool)
    ensures
        ok == encodable_len(data@.len()),
{
    data.len() / 3 <= (isize::MAX as usize - 4) / 4
}

/// Base64 text is plain ASCII: it takes one byte for each character.
pub proof fn lemma_base64_text_bytes(text: Seq<char>)
    requires
        is_base64_text(text),
    ensures
        encode_utf8(text).len() == text.len(),
{
    assert(is_ascii_chars(text)) by {
        assert forall|i: int| 0 <= i < text.len() implies '\0' <= #[trigger] text[i] <= '\u{7f}' by {
            assert(is_base64_char(text[i]));
        }
    }
    is_ascii_chars_encode_utf8(text);
}

/// Encodes bytes as padded URL-safe base64; the text reads back as the bytes.
pub fn to_text(data: &[u8]) -> (text: String)
    requires
        encodable_len(data@.len()),
    ensures
        text@ == base64_text(data@),
        is_base64_text(text@),
        decoded(text@) == Ok::<Seq<u8>, Failure>(data@),
{
    let text = encode(data);
    proof {
        lemma_base64_text_bytes(text@);
    }
    text
}

/// Decodes padded URL-safe base64 text.
///
/// Fails with `Base64DecodingError` where the text is not base64, and with
/// `DeserializationError` where it is too long to be decoded on this machine.
pub fn from_text(text: &str) -> (res: Result<Vec<u8>, Error>)
    ensures
        outcome(res) == decoded(text@),
{
    if text.len() > isize::MAX as usize {
        return Err(Error::DeserializationError);
    }
    match decode(text) {
        Ok(data) => Ok(data),
        Err(source) => Err(Error::Base64DecodingError { source }),
    }
}

} // verus!
