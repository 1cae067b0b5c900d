//! Reading the JSON data of an event record: the daemon's followers of a
//! run (the IPC turn stream, `gqy follow`, the job write-back and the goal
//! driver) decide on a record by the run and session it names and, for a
//! resync marker, the newest event id it carries.
use crate::persona::opt_chars;
use vstd::prelude::*;

verus! {

/// What `serde_json` reads from an event's data: `None` when it is not
/// JSON; otherwise the string value of its top-level `field` (`None` for a
/// field that is missing or not a string).
pub uninterp spec fn json_str_field(data: Seq<char>, field: Seq<char>) -> Option<Option<Seq<char>>>;

/// What `serde_json` reads as the unsigned integer value of the top-level
/// `field` of an event's data: `None` when the data is not JSON or the field
/// is missing or not an unsigned 64-bit integer.
pub uninterp spec fn json_u64_field(data: Seq<char>, field: Seq<char>) -> Option<u64>;

/// The string value of a top-level field, when the data is JSON and the
/// field is a string.
pub open spec fn json_string_field(data: Seq<char>, field: Seq<char>) -> Option<Seq<char>> {
    match json_str_field(data, field) {
        Some(Some(s)) => Some(s),
        _ => None,
    }
}

pub open spec fn opt_opt_chars(o: Option<Option<String>>) -> Option<Option<Seq<char>>> {
    match o {
        Some(inner) => Some(opt_chars(inner)),
        None => None,
    }
}

/// Parses an event's data with `serde_json::from_str` and reads the string
/// value of `field`. Trusted: the result is named [`json_str_field`].
#[verifier::external_body]
fn read_str_field(data: &str, field: &str) -> (r: Option<Option<String>>)
    ensures
        opt_opt_chars(r) == json_str_field(data@, field@),
{
    match serde_json::from_str::<serde_json::Value>(data) {
        Ok(value) => Some(value.get(field).and_then(serde_json::Value::as_str).map(|s| s.to_string())),
        Err(_) => None,
    }
}

/// Parses an event's data with `serde_json::from_str` and reads the `u64`
/// value of `field`. Trusted: the result is named [`json_u64_field`].
#[verifier::external_body]
fn read_u64_field(data: &str, field: &str) -> (r: Option<u64>)
    ensures
        r == json_u64_field(data@, field@),
{
    serde_json::from_str::<serde_json::Value>(data).ok().and_then(|value| value.get(field).and_then(serde_json::Value::as_u64))
}

/// Reads an event record's data: whether it is JSON, and the string value
/// of `field` when it is.
pub fn event_data_field(data: &str, field: &str) -> (r: (bool, Option<String>))
    ensures
        r.0 == json_str_field(data@, field@) is Some,
        opt_chars(r.1) == json_string_field(data@, field@),
{
    match read_str_field(data, field) {
        Some(v) => (true, v),
        None => (false, None),
    }
}

/// The string value of a top-level field of an event record's data.
pub fn event_field(data: &str, field: &str) -> (r: Option<String>)
    ensures
        opt_chars(r) == json_string_field(data@, field@),
{
    match read_str_field(data, field) {
        Some(v) => v,
        None => None,
    }
}

/// The unsigned integer value of a top-level field of an event record's
/// data.
pub fn event_u64_field(data: &str, field: &str) -> (r: Option<u64>)
    ensures
        r == json_u64_field(data@, field@),
{
    read_u64_field(data, field)
}

} // verus!
