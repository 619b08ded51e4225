//! Trusted access to JSON documents through serde_json.
//!
//! Every function here parses a JSON document given as text and reads one
//! field out of it. The results are deterministic functions of the argument
//! strings alone, so each is named by an uninterpreted spec function; the
//! verified protocol code states its contracts over those names.

use vstd::prelude::*;

verus! {

/// The string at `doc[key]`, if `doc` parses as JSON and holds one.
pub uninterp spec fn spec_json_str_field(doc: Seq<char>, key: Seq<char>) -> Option<Seq<char>>;

/// The string at `doc[k1][k2]`, if `doc` parses as JSON and holds one.
pub uninterp spec fn spec_json_str_field2(doc: Seq<char>, k1: Seq<char>, k2: Seq<char>) -> Option<
    Seq<char>,
>;

/// The unsigned integer at `doc[key]`, if `doc` parses as JSON and holds one.
pub uninterp spec fn spec_json_u64_field(doc: Seq<char>, key: Seq<char>) -> Option<u64>;

/// The unsigned integer at `doc[k1][k2]`, if `doc` parses as JSON and holds one.
pub uninterp spec fn spec_json_u64_field2(doc: Seq<char>, k1: Seq<char>, k2: Seq<char>) -> Option<
    u64,
>;

/// The length of the array at `doc[key]`, if `doc` parses as JSON and holds one.
pub uninterp spec fn spec_json_array_len(doc: Seq<char>, key: Seq<char>) -> Option<usize>;

/// The string at `doc[key][idx][field]`, if `doc` parses as JSON and holds one.
pub uninterp spec fn spec_json_elem_str_field(
    doc: Seq<char>,
    key: Seq<char>,
    idx: usize,
    field: Seq<char>,
) -> Option<Seq<char>>;

/// Relies on serde_json::from_str and Value::get/as_str: parses `doc` and
/// reads the string field `doc[key]`. Deterministic in its arguments.
#[verifier::external_body]
pub fn json_str_field(doc: &str, key: &str) -> (r: Option<String>)
    ensures
        r.deep_view() == spec_json_str_field(doc@, key@),
{
    serde_json::from_str::<serde_json::Value>(doc).ok().and_then(
        |v| v.get(key).and_then(|f| f.as_str()).map(|s| s.to_string()),
    )
}

/// Relies on serde_json::from_str and Value::get/as_str: parses `doc` and
/// reads the string field `doc[k1][k2]`. Deterministic in its arguments.
#[verifier::external_body]
pub fn json_str_field2(doc: &str, k1: &str, k2: &str) -> (r: Option<String>)
    ensures
        r.deep_view() == spec_json_str_field2(doc@, k1@, k2@),
{
    serde_json::from_str::<serde_json::Value>(doc).ok().and_then(
        |v| v.get(k1).and_then(|f| f.get(k2)).and_then(|f| f.as_str()).map(|s| s.to_string()),
    )
}

/// Relies on serde_json::from_str and Value::get/as_u64: parses `doc` and
/// reads the unsigned integer field `doc[key]`. Deterministic in its arguments.
#[verifier::external_body]
pub fn json_u64_field(doc: &str, key: &str) -> (r: Option<u64>)
    ensures
        r == spec_json_u64_field(doc@, key@),
{
    serde_json::from_str::<serde_json::Value>(doc).ok().and_then(
        |v| v.get(key).and_then(|f| f.as_u64()),
    )
}

/// Relies on serde_json::from_str and Value::get/as_u64: parses `doc` and
/// reads the unsigned integer field `doc[k1][k2]`. Deterministic in its arguments.
#[verifier::external_body]
pub fn json_u64_field2(doc: &str, k1: &str, k2: &str) -> (r: Option<u64>)
    ensures
        r == spec_json_u64_field2(doc@, k1@, k2@),
{
    serde_json::from_str::<serde_json::Value>(doc).ok().and_then(
        |v| v.get(k1).and_then(|f| f.get(k2)).and_then(|f| f.as_u64()),
    )
}

/// Relies on serde_json::from_str and Value::get/as_array: parses `doc` and
/// reads the length of the array `doc[key]`. Deterministic in its arguments.
#[verifier::external_body]
pub fn json_array_len(doc: &str, key: &str) -> (r: Option<usize>)
    ensures
        r == spec_json_array_len(doc@, key@),
{
    serde_json::from_str::<serde_json::Value>(doc).ok().and_then(
        |v| v.get(key).and_then(|f| f.as_array()).map(|a| a.len()),
    )
}

/// Relies on serde_json::from_str and Value::get/as_str: parses `doc` and
/// reads the string field `doc[key][idx][field]`. Deterministic in its arguments.
#[verifier::external_body]
pub fn json_elem_str_field(doc: &str, key: &str, idx: usize, field: &str) -> (r: Option<String>)
    ensures
        r.deep_view() == spec_json_elem_str_field(doc@, key@, idx, field@),
{
    serde_json::from_str::<serde_json::Value>(doc).ok().and_then(
        |v| v.get(key).and_then(|a| a.get(idx)).and_then(|e| e.get(field)).and_then(
            |f| f.as_str(),
        ).map(|s| s.to_string()),
    )
}

} // verus!
