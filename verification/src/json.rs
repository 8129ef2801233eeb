//! The JSON texts the library reads or writes through serde_json.
use vstd::prelude::*;

verus! {

/// The texts of a sequence of strings.
pub open spec fn texts(v: Seq<String>) -> Seq<Seq<char>> {
    v.map_values(|x: String| x@)
}

/// What `serde_json::from_str::<Vec<String>>` yields for a text: the strings of a
/// JSON array of strings, or `None` where the text is not one.
pub uninterp spec fn spec_json_string_list(s: Seq<char>) -> Option<Seq<Seq<char>>>;

/// What reading a text as a JSON value and looking up its field `ok` as a
/// boolean yields: `None` where serde_json does not accept the text as JSON;
/// otherwise `Some` of the field's boolean value, or `Some(None)` where the value
/// is not an object, has no field `ok`, or that field is not a boolean.
pub uninterp spec fn spec_json_ok_flag(s: Seq<char>) -> Option<Option<bool>>;

/// The compact JSON text that serde_json writes for an object of two fields: one
/// key with an array of strings, another with a string.
pub uninterp spec fn spec_json_list_and_text_object(
    list_key: Seq<char>,
    items: Seq<Seq<char>>,
    text_key: Seq<char>,
    text: Seq<char>,
) -> Seq<char>;

/// Calls `serde_json::from_str::<Vec<String>>`. Trusted: the result is the named
/// result of that call.
#[verifier::external_body]
pub(crate) fn json_string_list(s: &str) -> (r: Option<Vec<String>>)
    ensures
        r is Some <==> spec_json_string_list(s@) is Some,
        r matches Some(v) ==> texts(v@) == spec_json_string_list(s@)->0,
{
    match serde_json::from_str::<Vec<String>>(s) {
        Ok(v) => Some(v),
        Err(_) => None,
    }
}

/// Calls `serde_json::from_str::<serde_json::Value>`, then `get("ok")` and
/// `as_bool` on the value. Trusted: the result is the named result of those
/// calls; `None` stands for a text that serde_json refuses.
#[verifier::external_body]
pub(crate) fn json_ok_flag(s: &str) -> (r: Option<Option<bool>>)
    ensures
        r == spec_json_ok_flag(s@),
{
    match serde_json::from_str::<serde_json::Value>(s) {
        Ok(v) => Some(v.get("ok").and_then(serde_json::Value::as_bool)),
        Err(_) => None,
    }
}

/// Builds a `serde_json::Map` with `list_key` bound to `Value::from` of the
/// strings and `text_key` bound to `Value::from` of the text, and writes
/// `Value::Object` of it with `to_string`. Trusted: the result is the named text.
#[verifier::external_body]
pub(crate) fn json_list_and_text_object(
    list_key: &str,
    items: &Vec<String>,
    text_key: &str,
    text: &str,
) -> (r: String)
    ensures
        r@ == spec_json_list_and_text_object(list_key@, texts(items@), text_key@, text@),
{
    let mut fields = serde_json::Map::new();
    fields.insert(list_key.to_string(), serde_json::Value::from(items.as_slice()));
    fields.insert(text_key.to_string(), serde_json::Value::from(text));
    serde_json::Value::Object(fields).to_string()
}

} // verus!
