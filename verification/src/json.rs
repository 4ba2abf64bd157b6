use vstd::prelude::*;

verus! {

/// Mathematical model of one parsed JSON document: numbers are carried as
/// their decimal text, objects as a map from key to value.
pub enum JsonV {
    Null,
    Bool(bool),
    Num(Seq<char>),
    Text(Seq<char>),
    Arr(Seq<JsonV>),
    Obj(Map<Seq<char>, JsonV>),
}

#[verifier::external_type_specification]
#[verifier::external_body]
pub struct ExValue(serde_json::Value);

/// What a `serde_json::Value` holds, as a `JsonV` tree; the accessor
/// wrappers below all speak of this model.
pub uninterp spec fn json_value(v: serde_json::Value) -> JsonV;

/// The document, if any, that a given text parses to; `serde_json::from_str`
/// decides this from the text alone.
pub uninterp spec fn json_doc(s: Seq<char>) -> Option<JsonV>;

/// Relies on serde_json::from_str: deterministically parses a text into a
/// JSON value, or fails.
#[verifier::external_body]
pub fn json_from_str(s: &str) -> (r: Option<serde_json::Value>)
    ensures
        match r {
            Some(v) => json_doc(s@) == Some(json_value(v)),
            None => json_doc(s@) is None,
        },
{
    serde_json::from_str::<serde_json::Value>(s).ok()
}

/// Relies on serde_json::Value::get with a string index: looks the key up
/// when the value is an object, and returns None otherwise.
#[verifier::external_body]
pub fn json_get<'a>(v: &'a serde_json::Value, key: &str) -> (r: Option<&'a serde_json::Value>)
    ensures
        match r {
            Some(x) => json_value(*v) matches JsonV::Obj(m) && m.contains_key(key@) && json_value(
                *x,
            ) == m[key@],
            None => !(json_value(*v) matches JsonV::Obj(m) && m.contains_key(key@)),
        },
{
    v.get(key)
}

/// Relies on serde_json::Value::as_str: hands the string out exactly when the
/// value is a JSON string.
#[verifier::external_body]
pub fn json_as_str<'a>(v: &'a serde_json::Value) -> (r: Option<&'a str>)
    ensures
        match r {
            Some(s) => json_value(*v) == JsonV::Text(s@),
            None => !(json_value(*v) is Text),
        },
{
    v.as_str()
}

/// Relies on serde_json::Value::as_bool: hands the boolean out exactly when
/// the value is a JSON boolean.
#[verifier::external_body]
pub fn json_as_bool(v: &serde_json::Value) -> (r: Option<bool>)
    ensures
        match r {
            Some(b) => json_value(*v) == JsonV::Bool(b),
            None => !(json_value(*v) is Bool),
        },
{
    v.as_bool()
}

/// Relies on serde_json::Value::as_array: hands the elements out exactly when
/// the value is a JSON array.
#[verifier::external_body]
pub fn json_as_array<'a>(v: &'a serde_json::Value) -> (r: Option<&'a Vec<serde_json::Value>>)
    ensures
        match r {
            Some(a) => json_value(*v) matches JsonV::Arr(s) && a@.len() == s.len() && forall|
                i: int,
            |
                0 <= i < s.len() ==> json_value(a@[i]) == s[i],
            None => !(json_value(*v) is Arr),
        },
{
    v.as_array()
}

/// Relies on serde_json::Value::is_null.
#[verifier::external_body]
pub fn json_is_null(v: &serde_json::Value) -> (r: bool)
    ensures
        r == (json_value(*v) is Null),
{
    v.is_null()
}

/// Relies on serde_json::Value::is_object.
#[verifier::external_body]
pub fn json_is_obj(v: &serde_json::Value) -> (r: bool)
    ensures
        r == (json_value(*v) is Obj),
{
    v.is_object()
}

/// Relies on the Display impl of serde_json::Number: the decimal text of the
/// number, which the model carries verbatim.
#[verifier::external_body]
pub fn json_num_text(v: &serde_json::Value) -> (r: Option<String>)
    ensures
        match r {
            Some(s) => json_value(*v) == JsonV::Num(s@),
            None => !(json_value(*v) is Num),
        },
{
    match v {
        serde_json::Value::Number(n) => Some(n.to_string()),
        _ => None,
    }
}

} // verus!
