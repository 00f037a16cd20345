//! Lists of texts written as JSON arrays, by `serde_json`.

use crate::text::texts;
use vstd::prelude::*;
use vstd::string::StringExecFns;

verus! {

/// The error of `serde_json`.
#[verifier::external_type_specification]
#[verifier::external_body]
pub struct ExJsonError(serde_json::Error);

/// The JSON array that `serde_json::to_string` writes for a list of texts, or
/// `None` where it fails.
pub uninterp spec fn json_text(list: Seq<Seq<char>>) -> Option<Seq<char>>;

/// `serde_json::to_string` on a list of strings.
#[verifier::external_body]
pub(crate) fn to_json(list: &Vec<String>) -> (outcome: Result<String, serde_json::Error>)
    ensures
        match outcome {
            Ok(text) => json_text(texts(list@)) == Some(text@),
            Err(_) => json_text(texts(list@)) is None,
        },
{
    serde_json::to_string(list)
}

/// The text stored for a list: its JSON array, or the empty array where the
/// list cannot be written.
pub open spec fn list_text(list: Seq<Seq<char>>) -> Seq<char> {
    match json_text(list) {
        Some(text) => text,
        None => "[]"@,
    }
}

/// The text of a finished encoding, or the empty array where it failed.
pub fn text_or_empty_array(outcome: Result<String, serde_json::Error>) -> (text: String)
    ensures
        text@ == match outcome {
            Ok(written) => written@,
            Err(_) => "[]"@,
        },
{
    match outcome {
        Ok(written) => written,
        Err(_) => String::from_str("[]"),
    }
}

/// The text stored for `list`.
pub fn encode_list(list: &Vec<String>) -> (text: String)
    ensures
        text@ == list_text(texts(list@)),
{
    text_or_empty_array(to_json(list))
}

} // verus!
