//! Reading the inference server's reply body.
//!
//! The reply is expected to be a JSON object with a string at
//! `message.content`. A body that is not valid JSON is an error; a valid
//! body without that string degrades to a placeholder instead of failing.
//! The parse itself is done by serde_json behind one trusted wrapper; every
//! decision about the outcome is verified here.

use crate::sanitize::{spec_clean, clean_json_response};
use vstd::prelude::*;

verus! {

/// What serde_json finds in the reply text: `None` when the text is not
/// valid JSON; `Some(None)` for valid JSON without a string at
/// `message.content`; `Some(Some(c))` when that string is `c`. A fixed
/// function of the text alone.
pub uninterp spec fn parsed_message_content(text: Seq<char>) -> Option<Option<Seq<char>>>;

/// Relies on `serde_json::from_str::<Value>`, `Value::get` and
/// `Value::as_str`: whether the text parses, and what string sits at
/// `message.content` in it, depend on the text alone.
#[verifier::external_body]
fn parse_message_content(text: &str) -> (r: Option<Option<String>>)
    ensures
        match r {
            None => parsed_message_content(text@) is None,
            Some(None) => parsed_message_content(text@) == Some(None::<Seq<char>>),
            Some(Some(c)) => parsed_message_content(text@) == Some(Some(c@)),
        },
{
    match serde_json::from_str::<serde_json::Value>(text) {
        Ok(doc) => Some(
            doc.get("message")
                .and_then(|m| m.get("content"))
                .and_then(|c| c.as_str())
                .map(|s| s.to_owned()),
        ),
        Err(_) => None,
    }
}

/// The reply body was not valid JSON.
#[derive(Clone, Copy, PartialEq, Eq, Structural, Debug)]
pub enum ResponseError {
    InvalidJson,
}

/// The extracted content, or the placeholder when the reply had none.
pub open spec fn spec_content_or_placeholder(content: Option<Seq<char>>) -> Seq<char> {
    match content {
        Some(c) => c,
        None => "No content"@,
    }
}

/// Resolves an extracted `message.content` to the text a record is built
/// from: the content itself, or the literal placeholder when it is absent.
pub fn content_or_placeholder(content: Option<String>) -> (r: String)
    ensures
        r@ == spec_content_or_placeholder(
            match content {
                Some(c) => Some(c@),
                None => None,
            },
        ),
{
    match content {
        Some(c) => c,
        None => {
            let r = "No content".to_owned();
            r
        },
    }
}

/// The record text made from a reply's extracted content: placeholder
/// resolution, then cleanup.
pub open spec fn spec_record_content(content: Option<Seq<char>>) -> Seq<char> {
    spec_clean(spec_content_or_placeholder(content))
}

/// Builds the record text for one reply's extracted content: the content
/// or the placeholder, passed through cleanup.
pub fn record_content(content: Option<String>) -> (r: String)
    ensures
        r@ == spec_record_content(
            match content {
                Some(c) => Some(c@),
                None => None,
            },
        ),
{
    let text = content_or_placeholder(content);
    clean_json_response(text.as_str())
}

/// Reads a reply body: an error when it is not valid JSON, otherwise the
/// string at `message.content` when there is one.
pub fn extract_message_content(text: &str) -> (r: Result<Option<String>, ResponseError>)
    ensures
        match r {
            Ok(Some(c)) => parsed_message_content(text@) == Some(Some(c@)),
            Ok(None) => parsed_message_content(text@) == Some(None::<Seq<char>>),
            Err(e) => parsed_message_content(text@) is None && e == ResponseError::InvalidJson,
        },
{
    match parse_message_content(text) {
        Some(content) => Ok(content),
        None => Err(ResponseError::InvalidJson),
    }
}

/// A reply whose JSON carries no `message.content` string resolves to the
/// placeholder itself: the placeholder is free of the five cleanup
/// patterns, so cleanup returns it unchanged.
pub proof fn lemma_missing_content_is_placeholder()
    ensures
        spec_record_content(None::<Seq<char>>) == "No content"@,
{
    reveal_strlit("No content");
    let s = "No content"@;
    assert(s.len() == 10);
    assert(forall|j: int| 0 <= j < s.len() ==> s[j] != '\\' && s[j] != '\n' && s[j] != '`');
    lemma_no_first_char_no_occurrence(s, crate::sanitize::escaped_newline());
    lemma_no_first_char_no_occurrence(s, crate::sanitize::newline());
    lemma_no_first_char_no_occurrence(s, crate::sanitize::escaped_quote());
    lemma_no_first_char_no_occurrence(s, crate::sanitize::fence_json());
    lemma_no_first_char_no_occurrence(s, crate::sanitize::fence());
    crate::sanitize::lemma_clean_fixed_point(s);
}

/// A pattern whose first character appears nowhere in the text does not
/// occur in the text.
proof fn lemma_no_first_char_no_occurrence(s: Seq<char>, pat: Seq<char>)
    requires
        pat.len() > 0,
        forall|j: int| 0 <= j < s.len() ==> s[j] != pat[0],
    ensures
        !crate::sanitize::occurs(s, pat),
{
    if crate::sanitize::occurs(s, pat) {
        let i = choose|i: int|
            0 <= i && i + pat.len() <= s.len() && #[trigger] s.subrange(i, i + pat.len() as int)
                == pat;
        assert(s.subrange(i, i + pat.len() as int)[0] == s[i]);
    }
}

} // verus!
