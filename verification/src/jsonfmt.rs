//! The JSON reformatter: parse the input as a JSON value and re-serialize
//! it with stable multi-line indentation.

use vstd::prelude::*;
use crate::errors::TransformError;

verus! {

#[verifier::external_type_specification]
#[verifier::external_body]
pub struct ExJsonValue(serde_json::Value);

/// Whether `s` parses as a JSON value: exactly when
/// `serde_json::from_str::<Value>` succeeds on it.
pub uninterp spec fn json_valid(s: Seq<char>) -> bool;

/// The JSON value that valid text `s` parses to, named by a canonical
/// rendering; texts parse to equal values exactly when this agrees.
pub uninterp spec fn json_value_of(s: Seq<char>) -> Seq<char>;

/// What a `serde_json::Value` holds, named by the same canonical rendering
/// that `json_value_of` uses.
pub uninterp spec fn json_ident(v: serde_json::Value) -> Seq<char>;

/// The pretty-printed rendering of the JSON value named `ident`.
pub uninterp spec fn json_pretty(ident: Seq<char>) -> Seq<char>;

/// Relies on `serde_json::from_str::<Value>`: it succeeds exactly on text
/// that parses as a JSON value, and the value it returns is a function of
/// the text alone.
#[verifier::external_body]
fn parse_json(input: &str) -> (r: Option<serde_json::Value>)
    ensures
        r is Some <==> json_valid(input@),
        r is Some ==> json_ident(r->0) == json_value_of(input@),
{
    match serde_json::from_str::<serde_json::Value>(input) {
        Ok(v) => Some(v),
        Err(_) => None,
    }
}

/// Relies on `serde_json::to_string_pretty` applied to a `Value`: the
/// rendering is a function of the value alone, it parses back as JSON, and
/// it parses to an equal value. Rendering a `Value` cannot fail, since its
/// maps have string keys.
#[verifier::external_body]
fn pretty_json(v: &serde_json::Value) -> (r: String)
    ensures
        r@ == json_pretty(json_ident(*v)),
        json_valid(r@),
        json_value_of(r@) == json_ident(*v),
{
    serde_json::to_string_pretty(v).expect("Unable to generate json")
}

/// Parse the input as JSON and re-serialize it pretty-printed. The output
/// re-parses to a JSON value equal to the one the input parses to.
pub fn format_json(input: &str) -> (r: Result<String, TransformError>)
    ensures
        r is Ok <==> json_valid(input@),
        !json_valid(input@) ==> r == Err::<String, TransformError>(TransformError::InvalidJson),
        r is Ok ==> r->Ok_0@ == json_pretty(json_value_of(input@)),
        r is Ok ==> json_valid(r->Ok_0@) && json_value_of(r->Ok_0@) == json_value_of(input@),
{
    match parse_json(input) {
        Some(v) => Ok(pretty_json(&v)),
        None => Err(TransformError::InvalidJson),
    }
}

} // verus!
