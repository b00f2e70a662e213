//! The metadata of a message: a JSON object, or nothing.

use std::collections::HashMap;
use vstd::prelude::*;

verus! {

/// What `serde_json` makes of a text read as a JSON object: the members, each
/// value rendered as JSON, or the message of its error.
pub uninterp spec fn parsed_metadata(text: Seq<char>) -> Result<
    Map<Seq<char>, Seq<char>>,
    Seq<char>,
>;

/// `entries` lists the members of `members`, each of them once, in any order.
pub open spec fn lists_members(
    entries: Seq<(String, String)>,
    members: Map<Seq<char>, Seq<char>>,
) -> bool {
    &&& forall|i: int|
        0 <= i < entries.len() ==> members.contains_key((#[trigger] entries[i]).0@)
            && members[entries[i].0@] == entries[i].1@
    &&& forall|i: int, j: int|
        0 <= i < j < entries.len() ==> (#[trigger] entries[i]).0@ != (#[trigger] entries[j]).0@
    &&& forall|key: Seq<char>| #[trigger]
        members.contains_key(key) ==> exists|i: int|
            0 <= i < entries.len() && (#[trigger] entries[i]).0@ == key
}

/// `parsed` is `outcome`: the same members, or the same message.
pub open spec fn is_outcome(
    parsed: Result<Vec<(String, String)>, String>,
    outcome: Result<Map<Seq<char>, Seq<char>>, Seq<char>>,
) -> bool {
    match parsed {
        Ok(entries) => outcome is Ok && lists_members(entries@, outcome->Ok_0),
        Err(message) => outcome is Err && message@ == outcome->Err_0,
    }
}

/// Calls `serde_json::from_str` for a map from texts to JSON values, then
/// renders each value, or the error, with `to_string`. The result depends on
/// the text alone, except for the order of the members, which hashing decides.
#[verifier::external_body]
fn parse_metadata(text: &str) -> (parsed: Result<Vec<(String, String)>, String>)
    ensures
        is_outcome(parsed, parsed_metadata(text@)),
{
    match serde_json::from_str::<HashMap<String, serde_json::Value>>(text) {
        Ok(members) => Ok(members.into_iter().map(|(key, value)| (key, value.to_string())).collect()),
        Err(error) => Err(error.to_string()),
    }
}

/// What there is to say of a message's metadata.
#[derive(Debug)]
pub enum MetadataReport {
    /// The message has none.
    Absent,
    /// Its members, each value rendered as JSON.
    Parsed(Vec<(String, String)>),
    /// Why it is not a JSON object.
    Malformed(String),
}

/// The report on metadata that was parsed with the given outcome.
pub fn report(parsed: Result<Vec<(String, String)>, String>) -> (report: MetadataReport)
    ensures
        report == (match parsed {
            Ok(entries) => MetadataReport::Parsed(entries),
            Err(message) => MetadataReport::Malformed(message),
        }),
{
    match parsed {
        Ok(entries) => MetadataReport::Parsed(entries),
        Err(message) => MetadataReport::Malformed(message),
    }
}

/// `report` says what there is to say of the metadata `text`.
pub open spec fn is_report(report: MetadataReport, text: Seq<char>) -> bool {
    match report {
        MetadataReport::Absent => text.len() == 0,
        MetadataReport::Parsed(entries) => text.len() > 0 && is_outcome(
            Ok(entries),
            parsed_metadata(text),
        ),
        MetadataReport::Malformed(message) => text.len() > 0 && is_outcome(
            Err(message),
            parsed_metadata(text),
        ),
    }
}

/// Reads a message's metadata, which is absent exactly where the text is empty.
pub fn inspect_metadata(text: &str) -> (found: MetadataReport)
    ensures
        is_report(found, text@),
{
    if text.is_empty() {
        MetadataReport::Absent
    } else {
        report(parse_metadata(text))
    }
}

} // verus!
