//! Reading tool-call arguments, which arrive as JSON text.
use vstd::prelude::*;

verus! {

/// The compact text of the JSON document a text holds, as `serde_json`
/// prints the parsed value; `None` when the text is not JSON.
pub uninterp spec fn json_canonical(text: Seq<char>) -> Option<Seq<char>>;

/// The string under `key` of the JSON object a text holds; `None` when the
/// text is not JSON, not an object, lacks the key, or holds no string there.
pub uninterp spec fn json_string_field(text: Seq<char>, key: Seq<char>) -> Option<Seq<char>>;

/// The boolean under `key` of the JSON object a text holds, if there is one.
pub uninterp spec fn json_bool_field(text: Seq<char>, key: Seq<char>) -> Option<bool>;

/// The non-negative integer (fitting 64 bits) under `key` of the JSON
/// object a text holds, if there is one.
pub uninterp spec fn json_u64_field(text: Seq<char>, key: Seq<char>) -> Option<u64>;

/// The items of the array under `key` of the JSON object a text holds, each
/// as its string when it is one; `None` when there is no array there.
pub uninterp spec fn json_array_items(text: Seq<char>, key: Seq<char>) -> Option<Seq<Option<Seq<char>>>>;

/// `serde_json::from_str::<Value>(text)` then `Value::to_string`: the
/// result is named `json_canonical`, a function of the text alone.
#[verifier::external_body]
pub(crate) fn canonical_json(text: &str) -> (r: Option<String>)
    ensures
        match r {
            Some(s) => json_canonical(text@) == Some(s@),
            None => json_canonical(text@) is None,
        },
{
    serde_json::from_str::<serde_json::Value>(text).ok().map(|v| v.to_string())
}

/// `serde_json::from_str::<Value>`, then `Value::get(key)` and
/// `Value::as_str`: the result is named `json_string_field`, a function of
/// the text and the key alone.
#[verifier::external_body]
pub(crate) fn string_field(text: &str, key: &str) -> (r: Option<String>)
    ensures
        match r {
            Some(s) => json_string_field(text@, key@) == Some(s@),
            None => json_string_field(text@, key@) is None,
        },
{
    let v = serde_json::from_str::<serde_json::Value>(text).ok()?;
    v.get(key)?.as_str().map(str::to_string)
}

/// `serde_json::from_str::<Value>`, then `Value::get(key)` and
/// `Value::as_bool`: the result is named `json_bool_field`.
#[verifier::external_body]
pub(crate) fn bool_field(text: &str, key: &str) -> (r: Option<bool>)
    ensures
        r == json_bool_field(text@, key@),
{
    let v = serde_json::from_str::<serde_json::Value>(text).ok()?;
    v.get(key)?.as_bool()
}

/// `serde_json::from_str::<Value>`, then `Value::get(key)` and
/// `Value::as_u64`: the result is named `json_u64_field`.
#[verifier::external_body]
pub(crate) fn u64_field(text: &str, key: &str) -> (r: Option<u64>)
    ensures
        r == json_u64_field(text@, key@),
{
    let v = serde_json::from_str::<serde_json::Value>(text).ok()?;
    v.get(key)?.as_u64()
}

/// `serde_json::from_str::<Value>`, then `Value::get(key)`,
/// `Value::as_array` and `Value::as_str` on each item: the result is named
/// `json_array_items`.
#[verifier::external_body]
pub(crate) fn array_items(text: &str, key: &str) -> (r: Option<Vec<Option<String>>>)
    ensures
        match r {
            Some(items) => json_array_items(text@, key@) matches Some(v) && v.len() == items@.len() && forall|i: int|
                0 <= i < v.len() ==> match #[trigger] items@[i] {
                    Some(s) => v[i] == Some(s@),
                    None => v[i] is None,
                },
            None => json_array_items(text@, key@) is None,
        },
{
    let v = serde_json::from_str::<serde_json::Value>(text).ok()?;
    let mut out = Vec::new();
    for item in v.get(key)?.as_array()? {
        out.push(item.as_str().map(str::to_string));
    }
    Some(out)
}

} // verus!
