//! The parts of `serde_json` that the library's own logic reads and builds:
//! the fields of a JSON object, the scalar values it holds, the parsing of a
//! reply body and the rendering of a value as text.
use vstd::prelude::*;

verus! {

#[verifier::external_type_specification]
#[verifier::external_body]
pub struct ExJsonValue(serde_json::Value);

/// The fields of a JSON object, from key to value (`Value::as_object`); no
/// field for a value that is not an object.
pub uninterp spec fn json_fields(v: serde_json::Value) -> Map<Seq<char>, serde_json::Value>;

/// Whether a JSON value is an object (`Value::is_object`).
pub uninterp spec fn json_is_object(v: serde_json::Value) -> bool;

/// The text of a JSON string (`Value::as_str`); `None` for any other value.
pub uninterp spec fn json_as_str(v: serde_json::Value) -> Option<Seq<char>>;

/// The items of a JSON array (`Value::as_array`); `None` for any other value.
pub uninterp spec fn json_as_array(v: serde_json::Value) -> Option<Seq<serde_json::Value>>;

/// The value of a JSON number that is a non-negative integer fitting in a
/// `u64` (`Value::as_u64`); `None` for any other value.
pub uninterp spec fn json_as_u64(v: serde_json::Value) -> Option<u64>;

/// The truth value of a JSON boolean (`Value::as_bool`); `None` for any other value.
pub uninterp spec fn json_as_bool(v: serde_json::Value) -> Option<bool>;

/// Whether a JSON value is `null` (`Value::is_null`).
pub uninterp spec fn json_is_null(v: serde_json::Value) -> bool;

/// What `serde_json::from_str::<Value>` gives for a text: the parsed value,
/// or the text of the parse error.
pub uninterp spec fn json_parse(body: Seq<char>) -> Result<serde_json::Value, Seq<char>>;

/// What `serde_json::to_string` gives for a value: its compact JSON text, or
/// the text of the error.
pub uninterp spec fn json_render(v: serde_json::Value) -> Result<Seq<char>, Seq<char>>;

/// The text of the field `key` of `v` when that field holds a string.
pub open spec fn json_str_field(v: serde_json::Value, key: Seq<char>) -> Option<Seq<char>> {
    if json_fields(v).contains_key(key) {
        json_as_str(json_fields(v)[key])
    } else {
        None
    }
}

/// The number in the field `key` of `v` when that field holds a `u64`.
pub open spec fn json_u64_field(v: serde_json::Value, key: Seq<char>) -> Option<u64> {
    if json_fields(v).contains_key(key) {
        json_as_u64(json_fields(v)[key])
    } else {
        None
    }
}

/// `new` is the object `old` with its field `key` set to the string `text`:
/// the keys are those of `old` and `key`, and every other field keeps its value.
pub open spec fn str_field_set(
    old_value: serde_json::Value,
    new_value: serde_json::Value,
    key: Seq<char>,
    text: Seq<char>,
) -> bool {
    &&& json_is_object(new_value)
    &&& json_fields(new_value).contains_key(key)
    &&& json_str_field(new_value, key) == Some(text)
    &&& json_fields(new_value).remove(key) == json_fields(old_value).remove(key)
}

/// Calls `serde_json::Value::get` with a key.
/// Claimed: the result is the value of the field `key` where the value has
/// such a field, and `None` otherwise.
#[verifier::external_body]
pub(crate) fn json_get<'a>(v: &'a serde_json::Value, key: &str) -> (r: Option<&'a serde_json::Value>)
    ensures
        r is Some <==> json_fields(*v).contains_key(key@),
        r matches Some(x) ==> *x == json_fields(*v)[key@],
{
    v.get(key)
}

/// Calls `serde_json::Value::as_str` and copies the text.
/// Claimed: the result is the text of a JSON string, and `None` for any other value.
#[verifier::external_body]
pub(crate) fn json_str(v: &serde_json::Value) -> (r: Option<String>)
    ensures
        r is Some <==> json_as_str(*v) is Some,
        r matches Some(s) ==> json_as_str(*v) == Some(s@),
{
    v.as_str().map(String::from)
}

/// Calls `serde_json::Value::as_u64`.
/// Claimed: the result is the number held by a JSON integer that fits in a
/// `u64`, and `None` for any other value.
#[verifier::external_body]
pub(crate) fn json_u64(v: &serde_json::Value) -> (r: Option<u64>)
    ensures
        r == json_as_u64(*v),
{
    v.as_u64()
}

/// Calls `serde_json::Value::from` on a `u64`, which makes a `Value::Number`.
/// Claimed: the result is the JSON number `n`.
#[verifier::external_body]
pub(crate) fn json_number(n: u64) -> (r: serde_json::Value)
    ensures
        json_as_u64(r) == Some(n),
{
    serde_json::Value::from(n)
}

/// Calls `serde_json::Value::as_array`.
/// Claimed: the result holds the items of a JSON array, and is `None` for any other value.
#[verifier::external_body]
pub(crate) fn json_items(v: &serde_json::Value) -> (r: Option<&Vec<serde_json::Value>>)
    ensures
        r is Some <==> json_as_array(*v) is Some,
        r matches Some(a) ==> json_as_array(*v) == Some(a@),
{
    v.as_array()
}

/// Wraps a vector of values in `Value::Array`.
/// Claimed: the result is the JSON array of those values, in order.
#[verifier::external_body]
pub(crate) fn json_array(items: Vec<serde_json::Value>) -> (r: serde_json::Value)
    ensures
        json_as_array(r) == Some(items@),
{
    serde_json::Value::Array(items)
}

/// The text of the field `key` of `v`, where that field holds a string.
pub(crate) fn json_get_str(v: &serde_json::Value, key: &str) -> (r: Option<String>)
    ensures
        r is Some <==> json_str_field(*v, key@) is Some,
        r matches Some(s) ==> json_str_field(*v, key@) == Some(s@),
{
    match json_get(v, key) {
        Some(x) => json_str(x),
        None => None,
    }
}

/// Calls `serde_json::Value::as_object` and `Map::contains_key`.
/// Claimed: the result says whether the value has a field `key`.
#[verifier::external_body]
pub(crate) fn json_has_key(v: &serde_json::Value, key: &str) -> (r: bool)
    ensures
        r == json_fields(*v).contains_key(key@),
{
    match v.as_object() {
        Some(m) => m.contains_key(key),
        None => false,
    }
}

/// Calls `serde_json::Value::as_object_mut` and `Map::insert`.
/// Claimed: on an object the field `key` is added, or its value replaced, by
/// `value`, every other field staying as it was; any other value is left as it is.
#[verifier::external_body]
pub(crate) fn json_insert(v: &mut serde_json::Value, key: &str, value: serde_json::Value)
    ensures
        json_is_object(*old(v)) ==> {
            &&& json_is_object(*final(v))
            &&& json_fields(*final(v)) == json_fields(*old(v)).insert(key@, value)
        },
        !json_is_object(*old(v)) ==> *final(v) == *old(v),
{
    if let Some(m) = v.as_object_mut() {
        m.insert(String::from(key), value);
    }
}

/// Calls `serde_json::Map::new` and wraps the map in `Value::Object`.
/// Claimed: the result is an object with no field.
#[verifier::external_body]
pub(crate) fn json_object() -> (r: serde_json::Value)
    ensures
        json_is_object(r),
        forall|k: Seq<char>| !json_fields(r).contains_key(k),
{
    serde_json::Value::Object(serde_json::Map::new())
}

/// Calls `serde_json::Value::from` on a string slice, which makes a `Value::String`.
/// Claimed: the result is the JSON string `text`.
#[verifier::external_body]
pub(crate) fn json_string(text: &str) -> (r: serde_json::Value)
    ensures
        json_as_str(r) == Some(text@),
{
    serde_json::Value::from(text)
}

/// Calls `serde_json::Value::from` on a `bool`, which makes a `Value::Bool`.
/// Claimed: the result is the JSON boolean `b`.
#[verifier::external_body]
pub(crate) fn json_bool(b: bool) -> (r: serde_json::Value)
    ensures
        json_as_bool(r) == Some(b),
{
    serde_json::Value::from(b)
}

/// Calls `serde_json::Value::from` on `()`, which makes `Value::Null`.
/// Claimed: the result is `null`.
#[verifier::external_body]
pub(crate) fn json_null() -> (r: serde_json::Value)
    ensures
        json_is_null(r),
{
    serde_json::Value::from(())
}

/// Calls `Clone::clone` on a value, which `serde_json` derives.
/// Claimed: the copy equals the value.
#[verifier::external_body]
pub(crate) fn json_clone(v: &serde_json::Value) -> (r: serde_json::Value)
    ensures
        r == *v,
{
    v.clone()
}

/// Calls `serde_json::from_str::<Value>` and turns a parse error into its text.
/// Claimed: the result is what the text parses to, as named by `json_parse`.
#[verifier::external_body]
pub(crate) fn json_from_str(body: &str) -> (r: Result<serde_json::Value, String>)
    ensures
        r matches Ok(v) ==> json_parse(body@) matches Ok(p) && p == v,
        r matches Err(e) ==> json_parse(body@) matches Err(t) && t == e@,
{
    serde_json::from_str::<serde_json::Value>(body).map_err(|e| e.to_string())
}

/// Calls `serde_json::to_string` on a value and turns an error into its text.
/// Claimed: the result is the value's text, as named by `json_render`.
#[verifier::external_body]
pub(crate) fn json_to_string(v: &serde_json::Value) -> (r: Result<String, String>)
    ensures
        r matches Ok(s) ==> json_render(*v) matches Ok(t) && t == s@,
        r matches Err(e) ==> json_render(*v) matches Err(t) && t == e@,
{
    serde_json::to_string(v).map_err(|e| e.to_string())
}

/// Set the field `key` of an object to the string `text`; any other value is
/// left as it is.
pub(crate) fn json_set_str(v: &mut serde_json::Value, key: &str, text: &str)
    ensures
        json_is_object(*old(v)) ==> str_field_set(*old(v), *final(v), key@, text@),
        !json_is_object(*old(v)) ==> *final(v) == *old(v),
{
    let s = json_string(text);
    json_insert(v, key, s);
    assert(json_fields(*old(v)).insert(key@, s).remove(key@) =~= json_fields(*old(v)).remove(
        key@,
    ));
}

/// The number in the field `key` of `v`, where that field holds a `u64`.
pub(crate) fn json_get_u64(v: &serde_json::Value, key: &str) -> (r: Option<u64>)
    ensures
        r == json_u64_field(*v, key@),
{
    match json_get(v, key) {
        Some(x) => json_u64(x),
        None => None,
    }
}

} // verus!
