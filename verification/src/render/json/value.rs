//! JSON values, built and written by `serde_json`.

use serde_json::Value;
use vstd::prelude::*;

verus! {

/// A JSON value of `serde_json`.
#[verifier::external_type_specification]
#[verifier::external_body]
pub struct ExValue(serde_json::Value);

/// The members of a JSON object of `serde_json`.
#[verifier::external_type_specification]
#[verifier::external_body]
#[verifier::reject_recursive_types(K)]
#[verifier::reject_recursive_types(V)]
pub struct ExMap<K, V>(serde_json::Map<K, V>);

/// The error that writing or reading JSON can give.
#[verifier::external_type_specification]
#[verifier::external_body]
pub struct ExJsonError(serde_json::Error);

/// A JSON value.
pub enum Json {
    Null,
    Bool(bool),
    /// A whole number.
    Integer(int),
    /// A floating-point number whose value is whole.
    Real(int),
    Text(Seq<char>),
    Array(Seq<Json>),
    /// The members of an object, in the order in which they are written.
    Object(Seq<(Seq<char>, Json)>),
}

/// Whether member `i` of `members` is the member named `key`.
pub open spec fn is_member(members: Seq<(Seq<char>, Json)>, key: Seq<char>, i: int) -> bool {
    0 <= i < members.len() && members[i].0 == key
}

/// `members` with `value` stored under `key`: in place of the member of that
/// name where there is one, else at the end.
pub open spec fn put(members: Seq<(Seq<char>, Json)>, key: Seq<char>, value: Json) -> Seq<
    (Seq<char>, Json),
> {
    if exists|i: int| is_member(members, key, i) {
        members.update(choose|i: int| is_member(members, key, i), (key, value))
    } else {
        members.push((key, value))
    }
}

/// What a `serde_json` value holds.
pub uninterp spec fn json_of(value: Value) -> Json;

/// What a `serde_json` map holds: its members in the order in which they
/// are written.
pub uninterp spec fn members_of(map: serde_json::Map<String, Value>) -> Seq<(Seq<char>, Json)>;

/// The compact text that `serde_json` writes for a value.
pub uninterp spec fn compact_text(json: Json) -> Seq<char>;

/// The indented text that `serde_json` writes for a value.
pub uninterp spec fn pretty_text(json: Json) -> Seq<char>;

/// What the values of `values` hold, in order.
pub open spec fn jsons_of(values: Seq<Value>) -> Seq<Json> {
    Seq::new(values.len(), |i: int| json_of(values[i]))
}

/// The JSON value `null`.
///
/// Builds `Value::Null`.
#[verifier::external_body]
pub(crate) fn json_null() -> (r: Value)
    ensures
        json_of(r) == Json::Null,
{
    Value::Null
}

/// A JSON boolean.
///
/// Builds `Value::Bool`.
#[verifier::external_body]
pub(crate) fn json_bool(value: bool) -> (r: Value)
    ensures
        json_of(r) == Json::Bool(value),
{
    Value::Bool(value)
}

/// A JSON string.
///
/// Builds `Value::String`.
#[verifier::external_body]
pub(crate) fn json_text(value: &str) -> (r: Value)
    ensures
        json_of(r) == Json::Text(value@),
{
    Value::String(value.to_owned())
}

/// A JSON number that is whole.
///
/// Calls `Value::from` for `u64`, which builds a `Value::Number` of that
/// value.
#[verifier::external_body]
pub(crate) fn json_integer(value: u64) -> (r: Value)
    ensures
        json_of(r) == Json::Integer(value as int),
{
    Value::from(value)
}

/// A JSON number in floating point whose value is whole.
///
/// Calls `Number::from_f64` with the value converted to floating point,
/// which gives a number for every finite value, and builds `Value::Number`.
#[verifier::external_body]
pub(crate) fn json_real(value: i32) -> (r: Value)
    ensures
        json_of(r) == Json::Real(value as int),
{
    match serde_json::Number::from_f64(value.into()) {
        Some(number) => Value::Number(number),
        None => Value::Null,
    }
}

/// A JSON array.
///
/// Builds `Value::Array`.
#[verifier::external_body]
pub(crate) fn json_array(values: Vec<Value>) -> (r: Value)
    ensures
        json_of(r) == Json::Array(jsons_of(values@)),
{
    Value::Array(values)
}

/// The members of an empty JSON object.
///
/// Calls `Map::new`.
#[verifier::external_body]
pub(crate) fn json_members() -> (r: serde_json::Map<String, Value>)
    ensures
        members_of(r) == Seq::<(Seq<char>, Json)>::empty(),
{
    serde_json::Map::new()
}

/// Stores a member in the members of a JSON object.
///
/// Calls `Map::insert`, which with the feature `preserve_order` keeps the
/// members in the order of their first insertion: a new name goes to the
/// end, a known name keeps its place and gets the new value.
#[verifier::external_body]
pub(crate) fn json_insert(members: &mut serde_json::Map<String, Value>, key: &str, value: Value)
    ensures
        members_of(*final(members)) == put(members_of(*old(members)), key@, json_of(value)),
{
    members.insert(key.to_owned(), value);
}

/// A JSON object.
///
/// Builds `Value::Object`.
#[verifier::external_body]
pub(crate) fn json_object(members: serde_json::Map<String, Value>) -> (r: Value)
    ensures
        json_of(r) == Json::Object(members_of(members)),
{
    Value::Object(members)
}

/// Writes a value as compact JSON.
///
/// Calls `serde_json::to_string`. The text is a function of what the value
/// holds. Writing a `Value` does not fail: it is written as null, a boolean,
/// a number, a string, a sequence or a map whose keys are strings; a number
/// that is not finite is written as null; and the bytes go to a vector.
#[verifier::external_body]
pub(crate) fn json_to_string(value: &Value) -> (r: Result<String, serde_json::Error>)
    ensures
        r is Ok,
        r matches Ok(text) ==> text@ == compact_text(json_of(*value)),
{
    serde_json::to_string(value)
}

/// Writes a value as indented JSON.
///
/// Calls `serde_json::to_string_pretty`. The text is a function of what the
/// value holds. Writing a `Value` does not fail, as for the compact form.
#[verifier::external_body]
pub(crate) fn json_to_string_pretty(value: &Value) -> (r: Result<String, serde_json::Error>)
    ensures
        r is Ok,
        r matches Ok(text) ==> text@ == pretty_text(json_of(*value)),
{
    serde_json::to_string_pretty(value)
}

} // verus!
