//! A mathematical model of JSON documents, and the small set of serde_json
//! operations the protocol needs, each stated over that model.
use vstd::prelude::*;

verus! {

/// What a JSON document is, as data.
pub enum JsonModel {
    Null,
    Bool(bool),
    /// A number written without fraction or exponent.
    Int(int),
    /// Any other number, by the bit pattern of its `f64` value.
    Float(u64),
    Str(Seq<char>),
    Array(Seq<JsonModel>),
    /// Objects keep one value per key: the last one written.
    Object(Map<Seq<char>, JsonModel>),
}

#[verifier::external_type_specification]
#[verifier::external_body]
pub struct ExValue(serde_json::Value);

/// The JSON document that a `serde_json::Value` holds.
pub uninterp spec fn json_model(v: serde_json::Value) -> JsonModel;

/// The document that serde_json reads from a text, if the text is JSON.
pub uninterp spec fn json_parse(text: Seq<char>) -> Option<JsonModel>;

/// The compact text that serde_json writes for a document.
pub uninterp spec fn json_text(m: JsonModel) -> Seq<char>;

/// Relies on `serde_json::from_str::<Value>`: it reads the whole text as one
/// JSON document, or fails.
#[verifier::external_body]
pub(crate) fn parse_json(text: &str) -> (r: Option<serde_json::Value>)
    ensures
        match r {
            Some(v) => json_parse(text@) == Some(json_model(v)),
            None => json_parse(text@) is None,
        },
{
    serde_json::from_str::<serde_json::Value>(text).ok()
}

/// Relies on `Display for serde_json::Value`: the compact JSON text of the value.
#[verifier::external_body]
pub(crate) fn json_to_text(v: &serde_json::Value) -> (r: String)
    ensures
        r@ == json_text(json_model(*v)),
{
    v.to_string()
}

/// Relies on `Value::get` with a `&str` index: the member of an object under
/// that key; `None` for a missing key or a value that is no object.
#[verifier::external_body]
pub(crate) fn json_get<'a>(v: &'a serde_json::Value, key: &str) -> (r: Option<&'a serde_json::Value>)
    ensures
        match json_model(*v) {
            JsonModel::Object(m) => match r {
                Some(x) => m.contains_key(key@) && json_model(*x) == m[key@],
                None => !m.contains_key(key@),
            },
            _ => r is None,
        },
{
    v.get(key)
}

/// Relies on `Value::as_i64`: an integer that fits in `i64`, else `None`.
#[verifier::external_body]
pub(crate) fn json_as_i64(v: &serde_json::Value) -> (r: Option<i64>)
    ensures
        r == (match json_model(*v) {
            JsonModel::Int(i) => if i64::MIN <= i <= i64::MAX { Some(i as i64) } else { None },
            _ => None,
        }),
{
    v.as_i64()
}

/// Relies on `Value::as_u64`: an integer that fits in `u64`, else `None`.
#[verifier::external_body]
pub(crate) fn json_as_u64(v: &serde_json::Value) -> (r: Option<u64>)
    ensures
        r == (match json_model(*v) {
            JsonModel::Int(i) => if 0 <= i <= u64::MAX { Some(i as u64) } else { None },
            _ => None,
        }),
{
    v.as_u64()
}

/// Relies on `Value::as_str`: the text of a JSON string, else `None`.
#[verifier::external_body]
pub(crate) fn json_as_str(v: &serde_json::Value) -> (r: Option<&str>)
    ensures
        match json_model(*v) {
            JsonModel::Str(s) => r matches Some(x) && x@ == s,
            _ => r is None,
        },
{
    v.as_str()
}

/// Relies on `Value::is_null`.
#[verifier::external_body]
pub(crate) fn json_is_null(v: &serde_json::Value) -> (r: bool)
    ensures
        r == (json_model(*v) is Null),
{
    v.is_null()
}

/// Relies on `Value::is_object`.
#[verifier::external_body]
pub(crate) fn json_is_object(v: &serde_json::Value) -> (r: bool)
    ensures
        r == (json_model(*v) is Object),
{
    v.is_object()
}

/// Relies on `Value::Null`.
#[verifier::external_body]
pub(crate) fn json_null() -> (r: serde_json::Value)
    ensures
        json_model(r) == JsonModel::Null,
{
    serde_json::Value::Null
}

/// Relies on `From<i64> for Value`: a JSON integer.
#[verifier::external_body]
pub(crate) fn json_int(i: i64) -> (r: serde_json::Value)
    ensures
        json_model(r) == JsonModel::Int(i as int),
{
    serde_json::Value::from(i)
}

/// Relies on `From<u64> for Value`: a JSON integer.
#[verifier::external_body]
pub(crate) fn json_uint(i: u64) -> (r: serde_json::Value)
    ensures
        json_model(r) == JsonModel::Int(i as int),
{
    serde_json::Value::from(i)
}

/// Relies on `Value::String`: a JSON string.
#[verifier::external_body]
pub(crate) fn json_string(s: String) -> (r: serde_json::Value)
    ensures
        json_model(r) == JsonModel::Str(s@),
{
    serde_json::Value::String(s)
}

/// Relies on `Value::Object` over `Map::new`: the empty object.
#[verifier::external_body]
pub(crate) fn json_object() -> (r: serde_json::Value)
    ensures
        json_model(r) == JsonModel::Object(Map::empty()),
{
    serde_json::Value::Object(serde_json::Map::new())
}

/// Relies on `Map::insert` on the object inside a `Value`: the key now maps to
/// the value, replacing any earlier one.
#[verifier::external_body]
pub(crate) fn json_insert(obj: &mut serde_json::Value, key: String, val: serde_json::Value)
    requires
        json_model(*old(obj)) is Object,
    ensures
        json_model(*final(obj)) == JsonModel::Object(
            json_model(*old(obj))->Object_0.insert(key@, json_model(val)),
        ),
{
    if let serde_json::Value::Object(m) = obj {
        m.insert(key, val);
    }
}

} // verus!
