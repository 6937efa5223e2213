//! Trusted boundary to serde_json: the incoming text frames are parsed
//! by serde_json, and the parsed value is read here through a small set
//! of wrappers whose contracts speak of a mathematical JSON tree.

use vstd::prelude::*;

verus! {

/// Mathematical model of a parsed JSON document.
pub ghost enum JsonModel {
    Null,
    Bool { b: bool },
    /// A number written as an integer (no fraction and no exponent part)
    /// that the parser stores exactly, as a signed or unsigned 64-bit
    /// integer.
    Int { i: int },
    /// Any other number; the parser holds it as floating point, and it
    /// never reads back as an integer.
    NonIntNumber,
    Text { s: Seq<char> },
    Arr { items: Seq<JsonModel> },
    Obj { entries: Map<Seq<char>, JsonModel> },
}

#[verifier::external_type_specification]
#[verifier::external_body]
pub struct ExValue(serde_json::Value);

#[verifier::external_type_specification]
#[verifier::external_body]
pub struct ExJsonError(serde_json::Error);

/// The JSON tree a `serde_json::Value` holds.
pub uninterp spec fn json_of(v: serde_json::Value) -> JsonModel;

/// What `serde_json::from_str::<Value>` returns on a given text: the
/// parsed tree, or nothing when the text is not well-formed JSON. The
/// parse is a deterministic function of the text alone.
pub uninterp spec fn json_parse(s: Seq<char>) -> Option<JsonModel>;

/// Relies on `serde_json::from_str::<Value>`: parses a complete JSON
/// text into a value; an error means the text is not well-formed JSON.
#[verifier::external_body]
pub(crate) fn parse_json(s: &str) -> (r: Result<serde_json::Value, serde_json::Error>)
    ensures
        match r {
            Ok(v) => json_parse(s@) == Some(json_of(v)),
            Err(_) => json_parse(s@) is None,
        },
{
    serde_json::from_str::<serde_json::Value>(s)
}

/// Relies on `serde_json::Value::is_object`: true exactly when the value
/// is a JSON object.
#[verifier::external_body]
pub(crate) fn value_is_object(v: &serde_json::Value) -> (r: bool)
    ensures
        r == (json_of(*v) is Obj),
{
    v.is_object()
}

/// Relies on `serde_json::Value::get` with a string index: on an object
/// it looks the key up; on any other value it returns nothing.
#[verifier::external_body]
pub(crate) fn value_get<'a>(v: &'a serde_json::Value, key: &str) -> (r: Option<
    &'a serde_json::Value,
>)
    ensures
        json_of(*v) matches JsonModel::Obj { entries } ==> {
            &&& r is Some <==> entries.dom().contains(key@)
            &&& r matches Some(u) ==> entries.dom().contains(key@) && json_of(*u) == entries[key@]
        },
        !(json_of(*v) is Obj) ==> r is None,
{
    v.get(key)
}

/// Relies on `serde_json::Value::as_i64`: the number, exactly when the
/// value is an integer-written number in signed 64-bit range.
#[verifier::external_body]
pub(crate) fn value_as_i64(v: &serde_json::Value) -> (r: Option<i64>)
    ensures
        match r {
            Some(n) => json_of(*v) matches JsonModel::Int { i } && i == n as int,
            None => !(json_of(*v) matches JsonModel::Int { i } && i64::MIN <= i <= i64::MAX),
        },
{
    v.as_i64()
}

/// Relies on `serde_json::Value::as_str`: the character content, exactly
/// when the value is a JSON string.
#[verifier::external_body]
pub(crate) fn value_as_str<'a>(v: &'a serde_json::Value) -> (r: Option<&'a str>)
    ensures
        match r {
            Some(s) => json_of(*v) == (JsonModel::Text { s: s@ }),
            None => !(json_of(*v) is Text),
        },
{
    v.as_str()
}

/// Relies on `serde_json::Value::as_array`: the elements, exactly when
/// the value is a JSON array.
#[verifier::external_body]
pub(crate) fn value_as_array<'a>(v: &'a serde_json::Value) -> (r: Option<
    &'a Vec<serde_json::Value>,
>)
    ensures
        match r {
            Some(a) => json_of(*v) matches JsonModel::Arr { items } && items.len() == a@.len()
                && forall|k: int| 0 <= k < a@.len() ==> items[k] == json_of(#[trigger] a@[k]),
            None => !(json_of(*v) is Arr),
        },
{
    v.as_array()
}

} // verus!
