//! Encodings that the library leaves to other crates.

use vstd::prelude::*;

verus! {

/// The text that the standard base64 alphabet, with padding, gives for
/// `bytes`.
pub uninterp spec fn base64_text(bytes: Seq<u8>) -> Seq<char>;

/// The bytes that `text` stands for in the standard base64 alphabet with
/// padding, or `None` where it stands for none.
pub uninterp spec fn base64_bytes(text: Seq<char>) -> Option<Seq<u8>>;

/// The strings of the JSON array that `text` spells out, or `None` where
/// it does not spell out an array of strings.
pub uninterp spec fn json_strings(text: Seq<char>) -> Option<Seq<Seq<char>>>;

/// Why a text is no base64.
#[verifier::external_type_specification]
#[verifier::external_body]
pub struct ExDecodeError(base64::DecodeError);

/// Why a text is not the JSON that was expected.
#[verifier::external_type_specification]
#[verifier::external_body]
pub struct ExJsonError(serde_json::Error);

/// Calls `Engine::encode` of `base64::engine::general_purpose::STANDARD`.
/// Taken on trust: the text depends on the bytes alone, so that it can be
/// named. The encoder fails where the length of the text does not fit the
/// machine, which cannot happen for a slice that is in memory.
#[verifier::external_body]
pub(crate) fn encode_standard(bytes: &[u8]) -> (text: String)
    requires
        bytes@.len() <= isize::MAX,
    ensures
        text@ == base64_text(bytes@),
{
    base64::Engine::encode(&base64::engine::general_purpose::STANDARD, bytes)
}

/// Calls `Engine::decode` of `base64::engine::general_purpose::STANDARD`.
/// Taken on trust: whether the text is accepted, and the bytes it stands
/// for, depend on the text alone.
#[verifier::external_body]
pub(crate) fn decode_standard(text: &str) -> (r: Result<Vec<u8>, base64::DecodeError>)
    ensures
        match r {
            Ok(bytes) => base64_bytes(text@) == Some(bytes@),
            Err(_) => base64_bytes(text@) is None,
        },
{
    base64::Engine::decode(&base64::engine::general_purpose::STANDARD, text)
}

/// Formats a `base64::DecodeError` with its `Display`. Nothing is claimed
/// of the words.
#[verifier::external_body]
pub(crate) fn describe_decode_error(error: &base64::DecodeError) -> (words: String) {
    format!("{}", error)
}

/// Calls `serde_json::from_str` for a `Vec<String>`. Taken on trust:
/// whether the text is accepted, and the strings it spells out, depend on
/// the text alone.
#[verifier::external_body]
pub(crate) fn parse_json_strings(text: &str) -> (r: Result<Vec<String>, serde_json::Error>)
    ensures
        match r {
            Ok(items) => json_strings(text@) == Some(items@.map_values(|s: String| s@)),
            Err(_) => json_strings(text@) is None,
        },
{
    serde_json::from_str::<Vec<String>>(text)
}

} // verus!
