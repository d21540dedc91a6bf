//! JSON values, as serde_json holds them.

use serde_json::Value;
use vstd::prelude::*;

verus! {

/// What a JSON value holds.
#[verifier::ext_equal]
pub enum Json {
    Null,
    Bool(bool),
    /// A whole number from -2^63 up to 2^64 - 1.
    Int(int),
    /// Any other number, known by its bits as a 64-bit floating-point number.
    Float(int),
    Text(Seq<char>),
    List(Seq<Json>),
    Object(Map<Seq<char>, Json>),
}

/// `serde_json::Value`: a JSON value with all that stands in it.
#[verifier::external_type_specification]
#[verifier::external_body]
pub struct ExValue(Value);

/// `serde_json::Map`: the members of a JSON object.
#[verifier::external_type_specification]
#[verifier::external_body]
#[verifier::reject_recursive_types(K)]
#[verifier::reject_recursive_types(V)]
pub struct ExMap<K, V>(serde_json::Map<K, V>);

/// What a `serde_json::Value` holds.
pub uninterp spec fn json_of(v: Value) -> Json;

/// What a `serde_json::Map` holds.
pub uninterp spec fn members_of(m: serde_json::Map<String, Value>) -> Map<Seq<char>, Json>;

/// The compact text of a JSON value.
pub uninterp spec fn json_text(j: Json) -> Seq<char>;

/// The indented text of a JSON value.
pub uninterp spec fn json_pretty(j: Json) -> Seq<char>;

/// How serde_json words its refusal of a value that is not a string.
pub uninterp spec fn not_a_string(j: Json) -> Seq<char>;

/// An object without members.
pub open spec fn no_members() -> Map<Seq<char>, Json> {
    Map::empty()
}

/// What each of the values holds.
pub open spec fn jsons(v: Seq<Value>) -> Seq<Json> {
    v.map_values(|w: Value| json_of(w))
}

/// The member of an object under `key`; nothing else has members.
pub open spec fn member(j: Json, key: Seq<char>) -> Option<Json> {
    match j {
        Json::Object(m) => if m.dom().contains(key) {
            Some(m[key])
        } else {
            None
        },
        _ => None,
    }
}

/// The text of a JSON string.
pub open spec fn text_in(j: Option<Json>) -> Option<Seq<char>> {
    match j {
        Some(Json::Text(s)) => Some(s),
        _ => None,
    }
}

/// A whole number that is not negative.
pub open spec fn count_in(j: Option<Json>) -> Option<int> {
    match j {
        Some(Json::Int(n)) => if 0 <= n {
            Some(n)
        } else {
            None
        },
        _ => None,
    }
}

/// A whole number that fits in an `i64`.
pub open spec fn id_in(j: Option<Json>) -> Option<int> {
    match j {
        Some(Json::Int(n)) => if i64::MIN <= n <= i64::MAX {
            Some(n)
        } else {
            None
        },
        _ => None,
    }
}

/// What a value holds, if there is one.
pub open spec fn json_if_any(v: Option<&Value>) -> Option<Json> {
    match v {
        Some(w) => Some(json_of(*w)),
        None => None,
    }
}

/// `Value::get` with a string: the member under that key, where the value is an object that has
/// one.
#[verifier::external_body]
pub(crate) fn get<'a>(v: &'a Value, key: &str) -> (r: Option<&'a Value>)
    ensures
        json_if_any(r) == member(json_of(*v), key@),
{
    v.get(key)
}

/// `Value::as_str`: the text of a JSON string, and nothing for any other value.
#[verifier::external_body]
pub(crate) fn as_str(v: &Value) -> (r: Option<&str>)
    ensures
        match r {
            Some(s) => text_in(Some(json_of(*v))) == Some(s@),
            None => text_in(Some(json_of(*v))) is None,
        },
{
    v.as_str()
}

/// `Value::as_u64`: a whole number that is not negative, and nothing for any other value.
#[verifier::external_body]
pub(crate) fn as_u64(v: &Value) -> (r: Option<u64>)
    ensures
        match r {
            Some(n) => count_in(Some(json_of(*v))) == Some(n as int),
            None => count_in(Some(json_of(*v))) is None,
        },
{
    v.as_u64()
}

/// `Value::as_i64`: a whole number that fits in an `i64`, and nothing for any other value.
#[verifier::external_body]
pub(crate) fn as_i64(v: &Value) -> (r: Option<i64>)
    ensures
        match r {
            Some(n) => id_in(Some(json_of(*v))) == Some(n as int),
            None => id_in(Some(json_of(*v))) is None,
        },
{
    v.as_i64()
}

/// `Value::clone`: a value that holds the same.
pub assume_specification[ <Value as Clone>::clone ](v: &Value) -> (r: Value)
    ensures
        json_of(r) == json_of(*v),
;

/// `Value::default`: null.
#[verifier::external_body]
pub(crate) fn null() -> (v: Value)
    ensures
        json_of(v) == Json::Null,
{
    Value::default()
}

/// `Value::from` on a string slice: that string.
#[verifier::external_body]
pub(crate) fn text(s: &str) -> (v: Value)
    ensures
        json_of(v) == Json::Text(s@),
{
    Value::from(s)
}

/// `Value::from` on a `bool`.
#[verifier::external_body]
pub(crate) fn flag(b: bool) -> (v: Value)
    ensures
        json_of(v) == Json::Bool(b),
{
    Value::from(b)
}

/// `Value::from` on a `u64`.
#[verifier::external_body]
pub(crate) fn count(n: u64) -> (v: Value)
    ensures
        json_of(v) == Json::Int(n as int),
{
    Value::from(n)
}

/// `Value::from` on an `i64`.
#[verifier::external_body]
pub(crate) fn whole(n: i64) -> (v: Value)
    ensures
        json_of(v) == Json::Int(n as int),
{
    Value::from(n)
}

/// `Value::from` on a vector of values: the list of them.
#[verifier::external_body]
pub(crate) fn list(items: Vec<Value>) -> (v: Value)
    ensures
        json_of(v) == Json::List(jsons(items@)),
{
    Value::from(items)
}

/// `Value::from` on members: the object that has them.
#[verifier::external_body]
pub(crate) fn object(m: serde_json::Map<String, Value>) -> (v: Value)
    ensures
        json_of(v) == Json::Object(members_of(m)),
{
    Value::from(m)
}

/// `serde_json::Map::new`: no members.
#[verifier::external_body]
pub(crate) fn members() -> (m: serde_json::Map<String, Value>)
    ensures
        members_of(m) == no_members(),
{
    serde_json::Map::new()
}

/// `serde_json::Map::insert`: the key then stands for the value. What it stood for before, which
/// the call returns, is dropped.
#[verifier::external_body]
pub(crate) fn put(m: &mut serde_json::Map<String, Value>, key: &str, v: Value)
    ensures
        members_of(*final(m)) == members_of(*old(m)).insert(key@, json_of(v)),
{
    m.insert(key.to_string(), v);
}

/// `Value::to_string`: compact text, which depends on what the value holds alone.
#[verifier::external_body]
pub(crate) fn compact(v: &Value) -> (s: String)
    ensures
        s@ == json_text(json_of(*v)),
{
    v.to_string()
}

/// `serde_json::to_string_pretty` on a value: indented text, which depends on what the value
/// holds alone. Writing a value into a string does not fail.
#[verifier::external_body]
pub(crate) fn pretty(v: &Value) -> (s: String)
    ensures
        s@ == json_pretty(json_of(*v)),
{
    serde_json::to_string_pretty(v).unwrap()
}

/// `serde_json::from_value` into a `String`: the text of a JSON string, and a refusal of any
/// other value whose wording depends on that value alone.
#[verifier::external_body]
pub(crate) fn string_from(v: Value) -> (r: Result<String, String>)
    ensures
        match r {
            Ok(s) => json_of(v) == Json::Text(s@),
            Err(e) => !(json_of(v) is Text) && e@ == not_a_string(json_of(v)),
        },
{
    serde_json::from_value::<String>(v).map_err(|e| e.to_string())
}

/// Only an object has members, and each under its own key; only a string has a text, and only a
/// whole number is a count or an id, where it is not negative or fits.
pub proof fn values_give_what_they_hold(
    m: Map<Seq<char>, Json>,
    key: Seq<char>,
    j: Json,
    s: Seq<char>,
    n: int,
)
    ensures
        m.contains_key(key) ==> member(Json::Object(m), key) == Some(m[key]),
        !m.contains_key(key) ==> member(Json::Object(m), key) is None,
        !(j is Object) ==> member(j, key) is None,
        text_in(Some(Json::Text(s))) == Some(s),
        !(j is Text) ==> text_in(Some(j)) is None,
        text_in(None) is None,
        n >= 0 ==> count_in(Some(Json::Int(n))) == Some(n),
        n < 0 ==> count_in(Some(Json::Int(n))) is None,
        !(j is Int) ==> count_in(Some(j)) is None,
        count_in(None) is None,
        -0x8000_0000_0000_0000 <= n <= 0x7fff_ffff_ffff_ffff ==> id_in(Some(Json::Int(n))) == Some(
            n,
        ),
        n < -0x8000_0000_0000_0000 || n > 0x7fff_ffff_ffff_ffff ==> id_in(Some(Json::Int(n))) is None,
        !(j is Int) ==> id_in(Some(j)) is None,
        id_in(None) is None,
        !no_members().contains_key(key),
{
}

/// Values hold what each of them holds, in their order.
pub proof fn each_value_is_held(v: Seq<Value>)
    ensures
        jsons(v).len() == v.len(),
        forall|i: int| 0 <= i < v.len() ==> #[trigger] jsons(v)[i] == json_of(v[i]),
{
}

} // verus!
