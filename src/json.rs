//! The JSON documents that carry protocol events. Parsing and the layout of a
//! parsed document belong to serde_json; this module states what the library
//! reads of them, over the model `JsonView`.

use serde_json::Value;
use vstd::prelude::*;

verus! {

/// What a JSON value holds, as the library reads it.
pub enum JsonView {
    Null,
    Bool(bool),
    /// A number, with its value where it is an integer in `0..=u64::MAX`.
    Number(Option<u64>),
    Str(Seq<char>),
    Array(Seq<JsonView>),
    Object(Map<Seq<char>, JsonView>),
}

/// serde_json's parsed JSON value, carried opaquely; what it holds is `json_view`.
#[verifier::external_type_specification]
#[verifier::external_body]
pub struct ExValue(serde_json::Value);

/// serde_json's parse error, carried opaquely.
#[verifier::external_type_specification]
#[verifier::external_body]
pub struct ExJsonError(serde_json::Error);

/// What a serde_json value holds.
pub uninterp spec fn json_view(v: Value) -> JsonView;

/// The document that serde_json reads out of a text, if it reads one.
pub uninterp spec fn parsed_json(text: Seq<char>) -> Option<JsonView>;

/// The member `key` of an object; `None` for a missing key or a value that is
/// not an object.
pub open spec fn member(j: JsonView, key: Seq<char>) -> Option<JsonView> {
    match j {
        JsonView::Object(m) => if m.contains_key(key) {
            Some(m[key])
        } else {
            None
        },
        _ => None,
    }
}

/// The view of an optional reference to a value.
pub open spec fn opt_json(v: Option<&Value>) -> Option<JsonView> {
    match v {
        Some(x) => Some(json_view(*x)),
        None => None,
    }
}

/// Relies on serde_json::from_str::<Value>: the text is read as one JSON
/// document; whether that succeeds, and what it yields, depends on the text alone.
#[verifier::external_body]
pub(crate) fn parse_value(text: &str) -> (r: Result<Value, serde_json::Error>)
    ensures
        match r {
            Ok(v) => parsed_json(text@) == Some(json_view(v)),
            Err(_) => parsed_json(text@) is None,
        },
{
    serde_json::from_str(text)
}

/// Relies on serde_json's `Value::get` with a `&str` index: the member of an
/// object under that key, and `None` for a missing key or a non-object.
#[verifier::external_body]
pub(crate) fn get_member<'a>(v: &'a Value, key: &str) -> (r: Option<&'a Value>)
    ensures
        opt_json(r) == member(json_view(*v), key@),
{
    v.get(key)
}

/// Relies on serde_json's `Value::as_str`: the string of a string value, else `None`.
pub assume_specification[ serde_json::Value::as_str ](v: &Value) -> (r: Option<&str>)
    ensures
        match json_view(*v) {
            JsonView::Str(s) => r is Some && r->0@ == s,
            _ => r is None,
        },
;

/// Relies on serde_json's `Value::as_u64`: the value of a number that is an
/// integer in `0..=u64::MAX`, else `None`.
pub assume_specification[ serde_json::Value::as_u64 ](v: &Value) -> (r: Option<u64>)
    ensures
        r == match json_view(*v) {
            JsonView::Number(n) => n,
            _ => None,
        },
;

/// Relies on serde_json's `Value::is_null`: whether the value is null.
pub assume_specification[ serde_json::Value::is_null ](v: &Value) -> (r: bool)
    ensures
        r == (json_view(*v) is Null),
;

/// Relies on serde_json's `Value::is_object`: whether the value is an object.
pub assume_specification[ serde_json::Value::is_object ](v: &Value) -> (r: bool)
    ensures
        r == (json_view(*v) is Object),
;

/// Relies on serde_json's `Value::as_array`: the items of an array value, in
/// order, else `None`.
pub assume_specification[ serde_json::Value::as_array ](v: &Value) -> (r: Option<&Vec<Value>>)
    ensures
        match json_view(*v) {
            JsonView::Array(items) => {
                &&& r is Some
                &&& r->0@.len() == items.len()
                &&& forall|i: int| 0 <= i < items.len() ==> json_view(#[trigger] r->0@[i]) == items[i]
            },
            _ => r is None,
        },
;

} // verus!
