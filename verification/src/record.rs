//! Version records: a JSON document whose top level holds a string field
//! named `version`. The document text comes from the local version file
//! or from the remote manifest; reading the field is the only parsing
//! this subsystem needs from JSON.

use vstd::prelude::*;

verus! {

/// The string field named `key` of the JSON document `doc`: `Some` of its
/// characters when `doc` is valid JSON whose top level is an object with
/// that field holding a string, `None` otherwise. A function of the two
/// texts alone.
pub uninterp spec fn json_string_field_spec(doc: Seq<char>, key: Seq<char>) -> Option<Seq<char>>;

/// Relies on `serde_json::from_str::<Value>`, `Value::get` and
/// `Value::as_str` to read one string field out of a JSON document; the
/// composite result is named by `json_string_field_spec`.
#[verifier::external_body]
fn json_string_field(doc: &str, key: &str) -> (r: Option<String>)
    ensures
        match r {
            Some(s) => json_string_field_spec(doc@, key@) == Some(s@),
            None => json_string_field_spec(doc@, key@) is None,
        },
{
    match serde_json::from_str::<serde_json::Value>(doc) {
        Ok(v) => match v.get(key) {
            Some(f) => f.as_str().map(|s| s.to_string()),
            None => None,
        },
        Err(_) => None,
    }
}

/// The version string a record document carries, if any.
pub open spec fn spec_version_field(doc: Seq<char>) -> Option<Seq<char>> {
    json_string_field_spec(doc, "version"@)
}

/// Read the `version` field of a version-record document. `None` exactly
/// when the document is malformed: not JSON, no `version` field, or the
/// field is not a string. The version string is returned unchanged, with
/// no normalization.
pub fn parse_version_record(content: &str) -> (r: Option<String>)
    ensures
        match r {
            Some(s) => spec_version_field(content@) == Some(s@),
            None => spec_version_field(content@) is None,
        },
{
    json_string_field(content, "version")
}

} // verus!
