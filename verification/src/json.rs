//! JSON objects as attribute maps: the boundary to `serde_json`.
//!
//! Verus does not look inside a `serde_json::Map`. What this crate reads of
//! one is, for each name, the text of its value where the value is a JSON
//! string; [`fields`] names exactly that, and the functions below are believed
//! to do to it what their contracts say.

use vstd::prelude::*;

verus! {

/// `serde_json::Map`: a JSON object.
#[verifier::external_type_specification]
#[verifier::external_body]
#[verifier::reject_recursive_types(K)]
#[verifier::reject_recursive_types(V)]
pub struct ExJsonMap<K, V>(serde_json::Map<K, V>);

/// `serde_json::Value`: any JSON value.
#[verifier::external_type_specification]
#[verifier::external_body]
pub struct ExJsonValue(serde_json::Value);

/// What a JSON object holds: under each of its names the text of the value,
/// or `None` where the value is not a JSON string.
pub uninterp spec fn fields(object: serde_json::Map<String, serde_json::Value>) -> Map<
    Seq<char>,
    Option<Seq<char>>,
>;

/// What `serde_json::from_str` makes of `text`: `None` where it is not JSON,
/// `Some(None)` where it is JSON but no object, else the object's fields.
pub uninterp spec fn json_object(text: Seq<char>) -> Option<
    Option<Map<Seq<char>, Option<Seq<char>>>>,
>;

/// `serde_json::from_str` to a `Value`: fails on text that is not JSON, and
/// else yields the value, here kept only where it is an object.
#[verifier::external_body]
pub(crate) fn parse_object(text: &str) -> (r: Result<
    Option<serde_json::Map<String, serde_json::Value>>,
    serde_json::Error,
>)
    ensures
        match r {
            Ok(Some(object)) => json_object(text@) == Some(Some(fields(object))),
            Ok(None) => json_object(text@) == Some(None::<Map<Seq<char>, Option<Seq<char>>>>),
            Err(_) => json_object(text@) is None,
        },
{
    match serde_json::from_str::<serde_json::Value>(text)? {
        serde_json::Value::Object(object) => Ok(Some(object)),
        _ => Ok(None),
    }
}

/// `serde_json::Map::get`: the value under `name`, if the object has that
/// name, as its text where it is a JSON string.
#[verifier::external_body]
pub(crate) fn field(object: &serde_json::Map<String, serde_json::Value>, name: &str) -> (r: Option<
    Option<String>,
>)
    ensures
        match r {
            Some(Some(text)) => fields(*object).contains_key(name@) && fields(*object)[name@]
                == Some(text@),
            Some(None) => fields(*object).contains_key(name@) && fields(*object)[name@] is None,
            None => !fields(*object).contains_key(name@),
        },
{
    match object.get(name) {
        Some(serde_json::Value::String(text)) => Some(Some(text.clone())),
        Some(_) => Some(None),
        None => None,
    }
}

/// `serde_json::Map::insert` of a JSON string: afterwards the object holds
/// `text` under `name` and, under every other name, what it held before.
#[verifier::external_body]
pub(crate) fn put(
    object: &mut serde_json::Map<String, serde_json::Value>,
    name: String,
    text: String,
)
    ensures
        fields(*final(object)) == fields(*old(object)).insert(name@, Some(text@)),
{
    object.insert(name, serde_json::Value::String(text));
}

} // verus!
