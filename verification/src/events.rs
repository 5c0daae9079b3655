//! The trusted boundary to the engine's output protocol.
//!
//! Each line of the captured output is one self-describing JSON event. The
//! crate does not re-implement JSON: decoding a line is delegated to
//! serde_json behind [`parse_event_line`], whose outcome — being a function
//! of the line's characters alone — is named by the uninterpreted
//! [`event_of_line`]. Everything around the two calls here (line splitting,
//! blank-line handling, filtering, ordering) is verified code.

use vstd::prelude::*;

use crate::options::SearchResult;
use crate::options::SearchResultView;

verus! {

/// What decoding one output line yields: `Some` exactly for a well-formed
/// match or context event, with its path, line number, content and kind;
/// `None` for every other line (malformed, or another event kind).
pub uninterp spec fn event_of_line(line: Seq<char>) -> Option<SearchResultView>;

/// Relies on `serde_json::from_str::<Value>` and the `Value` accessors
/// `get`, `as_str` and `as_u64`: reads the event's `type` discriminator and
/// its `data.path.text`, `data.line_number` and `data.lines.text` fields.
/// The result depends on the line's characters alone, so the contract names
/// it with [`event_of_line`]; a line that is not one well-formed match or
/// context event with all three fields present yields `None`.
#[verifier::external_body]
pub(crate) fn parse_event_line(line: &str) -> (r: Option<SearchResult>)
    ensures
        r matches Some(e) ==> event_of_line(line@) == Some(e@),
        r is None ==> event_of_line(line@) is None,
{
    let value: serde_json::Value = serde_json::from_str(line).ok()?;
    let is_match = match value.get("type").and_then(|t| t.as_str()) {
        Some("match") => true,
        Some("context") => false,
        _ => return None,
    };
    let data = value.get("data")?;
    let path = data.get("path").and_then(|p| p.get("text")).and_then(|p| p.as_str())?;
    let line_number = data.get("line_number").and_then(|n| n.as_u64())?;
    let content = data.get("lines").and_then(|l| l.get("text")).and_then(|l| l.as_str())?;
    Some(SearchResult { path: path.to_string(), line_number, content: content.to_string(), is_match })
}

/// Relies on `core::str::from_utf8`: it succeeds exactly on well-formed
/// UTF-8 input and returns the text whose characters those bytes encode,
/// here stated with vstd's UTF-8 model.
#[verifier::external_body]
pub(crate) fn utf8_to_str(bytes: &[u8]) -> (r: Option<&str>)
    ensures
        r is Some <==> vstd::utf8::valid_utf8(bytes@),
        r matches Some(s) ==> s@ == vstd::utf8::decode_utf8(bytes@),
{
    core::str::from_utf8(bytes).ok()
}

} // verus!
