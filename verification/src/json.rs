//! What the library reads out of a JSON document. The documents are parsed
//! and held by `serde_json`; the functions here hand the library plain values
//! and name, for the contracts, what each of them reads.
use vstd::prelude::*;

verus! {

/// `serde_json::Value`, a parsed JSON value, carried as it is.
#[verifier::external_type_specification]
#[verifier::external_body]
pub struct ExValue(serde_json::Value);

/// `serde_json::Error`, the parser's error, of which nothing is read.
#[verifier::external_type_specification]
#[verifier::external_body]
pub struct ExJsonError(serde_json::Error);

/// The document that a text parses to, if it is valid JSON.
pub uninterp spec fn json_document(text: Seq<char>) -> Option<serde_json::Value>;

/// The member `name` of a value, if the value is an object that has it.
pub uninterp spec fn json_member(v: serde_json::Value, name: Seq<char>) -> Option<
    serde_json::Value,
>;

/// The elements of a value, if it is an array.
pub uninterp spec fn json_items(v: serde_json::Value) -> Option<Seq<serde_json::Value>>;

/// The characters of a value, if it is a string.
pub uninterp spec fn json_string(v: serde_json::Value) -> Option<Seq<char>>;

/// The number that a value is, if it is an integer that fits `i64`.
pub uninterp spec fn json_integer(v: serde_json::Value) -> Option<i64>;

/// The compact JSON text of a value.
pub uninterp spec fn json_text(v: serde_json::Value) -> Seq<char>;

/// `serde_json::from_str` at `Value`: the parsed document, or the parser's
/// error where the text is not one JSON value. The outcome depends on the
/// text alone.
#[verifier::external_body]
pub(crate) fn parse_document(text: &str) -> (r: Result<serde_json::Value, serde_json::Error>)
    ensures
        json_document(text@) == (match r {
            Ok(v) => Some(v),
            Err(_) => None,
        }),
{
    serde_json::from_str::<serde_json::Value>(text)
}

/// `Value::get` with a string index: the member of that name, `None` where
/// the value is no object or has no such member.
#[verifier::external_body]
pub(crate) fn member<'a>(v: &'a serde_json::Value, name: &str) -> (r: Option<
    &'a serde_json::Value,
>)
    ensures
        json_member(*v, name@) == (match r {
            Some(m) => Some(*m),
            None => None,
        }),
{
    v.get(name)
}

/// `Value::as_array`: the vector of an array, `None` for any other value.
#[verifier::external_body]
pub(crate) fn items<'a>(v: &'a serde_json::Value) -> (r: Option<&'a Vec<serde_json::Value>>)
    ensures
        json_items(*v) == (match r {
            Some(a) => Some(a@),
            None => None,
        }),
{
    v.as_array()
}

/// `Value::as_str`: the text of a string, `None` for any other value.
#[verifier::external_body]
pub(crate) fn string<'a>(v: &'a serde_json::Value) -> (r: Option<&'a str>)
    ensures
        json_string(*v) == (match r {
            Some(s) => Some(s@),
            None => None,
        }),
{
    v.as_str()
}

/// `Value::as_i64`: the integer that a number is, `None` for a number that
/// is no integer or does not fit, and for any other value.
#[verifier::external_body]
pub(crate) fn integer(v: &serde_json::Value) -> (r: Option<i64>)
    ensures
        r == json_integer(*v),
{
    v.as_i64()
}

/// `Value`'s `Display` through `to_string`: the compact JSON text.
#[verifier::external_body]
pub(crate) fn text(v: &serde_json::Value) -> (r: String)
    ensures
        r@ == json_text(*v),
{
    v.to_string()
}

} // verus!
