//! JSON texts. Reading and printing JSON is left to `serde_json`.

use vstd::prelude::*;

use crate::domain::opt_text;

verus! {

/// What `serde_json` makes of a text: the compact rendering
/// (`Value::to_string`) of the value that `serde_json::from_str` reads from
/// it, or `None` where `from_str` reports an error.
pub uninterp spec fn json_compact(text: Seq<char>) -> Option<Seq<char>>;

/// Reads a JSON text into a `serde_json::Value` with `serde_json::from_str`
/// and prints the value again in compact form with `Value::to_string`.
///
/// The result is named, not described.
#[verifier::external_body]
pub(crate) fn compact_json(text: &str) -> (compact: Option<String>)
    ensures
        opt_text(compact) == json_compact(text@),
{
    match serde_json::from_str::<serde_json::Value>(text) {
        Ok(value) => Some(value.to_string()),
        Err(_) => None,
    }
}

/// What `serde_json::from_str` makes of a text read as a list of 16-bit
/// numbers: the list, or `None` where it reports an error.
pub uninterp spec fn json_ports(text: Seq<char>) -> Option<Seq<u16>>;

/// The view of an optional list of ports.
pub open spec fn opt_ports(ports: Option<Vec<u16>>) -> Option<Seq<u16>> {
    match ports {
        Some(p) => Some(p@),
        None => None,
    }
}

/// Reads a JSON array of port numbers with `serde_json::from_str` into a
/// `Vec<u16>`.
///
/// The result is named, not described.
#[verifier::external_body]
pub(crate) fn parse_ports(text: &str) -> (ports: Option<Vec<u16>>)
    ensures
        opt_ports(ports) == json_ports(text@),
{
    serde_json::from_str::<Vec<u16>>(text).ok()
}

} // verus!
