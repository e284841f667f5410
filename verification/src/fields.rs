//! Reading the fields of a record out of a JSON object, and the faults that
//! a JSON value can have as a record.

use crate::error::ValueError;
use crate::json::{as_float_bits, JsonMap, JsonNumber, JsonSpec, JsonValue};
use vstd::prelude::*;
use vstd::string::StringExecFns;

verus! {

/// Why a JSON value is not the record that was asked for.
pub ghost enum Fault {
    /// The value is not an object.
    NotAnObject,
    /// The object lacks a field that must be there.
    Missing(Seq<char>),
    /// The field holds a value of the wrong kind.
    WrongType(Seq<char>),
    /// The value is not a text.
    NotAText,
    /// The text names no variant.
    UnknownVariant(Seq<char>),
}

/// The message that reports a fault.
pub open spec fn fault_message(fault: Fault) -> Seq<char> {
    match fault {
        Fault::NotAnObject => "expected a JSON object"@,
        Fault::Missing(key) => "missing field `"@ + key + "`"@,
        Fault::WrongType(key) => "invalid type for field `"@ + key + "`"@,
        Fault::NotAText => "expected a JSON string"@,
        Fault::UnknownVariant(name) => "unknown variant `"@ + name + "`"@,
    }
}

/// The result reports exactly the outcome `spec`: the value on success, the
/// fault's message on failure.
pub open spec fn reports<T, V>(r: Result<T, ValueError>, spec: Result<V, Fault>, view: spec_fn(T) -> V) -> bool {
    match spec {
        Ok(v) => r is Ok && view(r->Ok_0) == v,
        Err(fault) => r is Err && r->Err_0.message@ == fault_message(fault),
    }
}

/// A text field that must be there.
pub open spec fn required_text(m: Map<Seq<char>, JsonSpec>, key: Seq<char>) -> Result<
    Seq<char>,
    Fault,
> {
    if !m.contains_key(key) {
        Err(Fault::Missing(key))
    } else {
        match m[key] {
            JsonSpec::String(s) => Ok(s),
            _ => Err(Fault::WrongType(key)),
        }
    }
}

/// A text field that may be left out or null.
pub open spec fn optional_text(m: Map<Seq<char>, JsonSpec>, key: Seq<char>) -> Result<
    Option<Seq<char>>,
    Fault,
> {
    if !m.contains_key(key) {
        Ok(None)
    } else {
        match m[key] {
            JsonSpec::Null => Ok(None),
            JsonSpec::String(s) => Ok(Some(s)),
            _ => Err(Fault::WrongType(key)),
        }
    }
}

/// An object field that may be left out or null.
pub open spec fn optional_object(m: Map<Seq<char>, JsonSpec>, key: Seq<char>) -> Result<
    Option<Map<Seq<char>, JsonSpec>>,
    Fault,
> {
    if !m.contains_key(key) {
        Ok(None)
    } else {
        match m[key] {
            JsonSpec::Null => Ok(None),
            JsonSpec::Object(o) => Ok(Some(o)),
            _ => Err(Fault::WrongType(key)),
        }
    }
}

/// An object field that is empty when left out.
pub open spec fn object_or_empty(m: Map<Seq<char>, JsonSpec>, key: Seq<char>) -> Result<
    Map<Seq<char>, JsonSpec>,
    Fault,
> {
    if !m.contains_key(key) {
        Ok(Map::empty())
    } else {
        match m[key] {
            JsonSpec::Object(o) => Ok(o),
            _ => Err(Fault::WrongType(key)),
        }
    }
}

/// A float field that may be left out or null. Any number is taken as a
/// float.
pub open spec fn optional_float(m: Map<Seq<char>, JsonSpec>, key: Seq<char>) -> Result<
    Option<u64>,
    Fault,
> {
    if !m.contains_key(key) {
        Ok(None)
    } else {
        match m[key] {
            JsonSpec::Null => Ok(None),
            JsonSpec::Number(n) => Ok(Some(as_float_bits(n))),
            _ => Err(Fault::WrongType(key)),
        }
    }
}

/// The view of an optional text.
pub open spec fn text_view(text: Option<String>) -> Option<Seq<char>> {
    match text {
        Some(s) => Some(s@),
        None => None,
    }
}

/// The view of an optional object.
pub open spec fn object_view(object: Option<JsonMap>) -> Option<Map<Seq<char>, JsonSpec>> {
    match object {
        Some(m) => Some(m@),
        None => None,
    }
}

/// The view of an optional number.
pub open spec fn number_view(number: Option<JsonNumber>) -> Option<u64> {
    match number {
        Some(n) => Some(as_float_bits(n@)),
        None => None,
    }
}

/// The error for a value that is not an object.
pub fn not_an_object() -> (e: ValueError)
    ensures
        e.message@ == fault_message(Fault::NotAnObject),
{
    ValueError { message: "expected a JSON object".to_owned() }
}

/// The error for a field that is not there.
pub fn missing_field(key: &str) -> (e: ValueError)
    ensures
        e.message@ == fault_message(Fault::Missing(key@)),
{
    let mut message = "missing field `".to_owned();
    message.append(key);
    message.append("`");
    ValueError { message }
}

/// The error for a field of the wrong kind.
pub fn wrong_type(key: &str) -> (e: ValueError)
    ensures
        e.message@ == fault_message(Fault::WrongType(key@)),
{
    let mut message = "invalid type for field `".to_owned();
    message.append(key);
    message.append("`");
    ValueError { message }
}

/// The error for a value that is not a text.
pub fn not_a_text() -> (e: ValueError)
    ensures
        e.message@ == fault_message(Fault::NotAText),
{
    ValueError { message: "expected a JSON string".to_owned() }
}

/// The error for a text that names no variant.
pub fn unknown_variant(name: &str) -> (e: ValueError)
    ensures
        e.message@ == fault_message(Fault::UnknownVariant(name@)),
{
    let mut message = "unknown variant `".to_owned();
    message.append(name);
    message.append("`");
    ValueError { message }
}

/// Reads a text field that must be there.
pub fn read_required_text(m: &JsonMap, key: &str) -> (r: Result<String, ValueError>)
    ensures
        reports(r, required_text(m@, key@), |s: String| s@),
{
    match m.get(key) {
        None => Err(missing_field(key)),
        Some(JsonValue::String(s)) => Ok(s.clone()),
        Some(_) => Err(wrong_type(key)),
    }
}

/// Reads a text field that may be left out or null.
pub fn read_optional_text(m: &JsonMap, key: &str) -> (r: Result<Option<String>, ValueError>)
    ensures
        reports(r, optional_text(m@, key@), |s: Option<String>| text_view(s)),
{
    match m.get(key) {
        None => Ok(None),
        Some(JsonValue::Null) => Ok(None),
        Some(JsonValue::String(s)) => Ok(Some(s.clone())),
        Some(_) => Err(wrong_type(key)),
    }
}

/// Reads an object field that may be left out or null.
pub fn read_optional_object(m: &JsonMap, key: &str) -> (r: Result<Option<JsonMap>, ValueError>)
    ensures
        reports(r, optional_object(m@, key@), |o: Option<JsonMap>| object_view(o)),
{
    match m.get(key) {
        None => Ok(None),
        Some(JsonValue::Null) => Ok(None),
        Some(JsonValue::Object(o)) => Ok(Some(o.clone())),
        Some(_) => Err(wrong_type(key)),
    }
}

/// Reads an object field that is empty when left out.
pub fn read_object_or_empty(m: &JsonMap, key: &str) -> (r: Result<JsonMap, ValueError>)
    ensures
        reports(r, object_or_empty(m@, key@), |o: JsonMap| o@),
{
    match m.get(key) {
        None => Ok(JsonMap::new()),
        Some(JsonValue::Object(o)) => Ok(o.clone()),
        Some(_) => Err(wrong_type(key)),
    }
}

/// Reads a float field that may be left out or null.
pub fn read_optional_float(m: &JsonMap, key: &str) -> (r: Result<Option<JsonNumber>, ValueError>)
    ensures
        reports(r, optional_float(m@, key@), |n: Option<JsonNumber>| number_view(n)),
        r matches Ok(Some(n)) ==> n@ is Float,
{
    match m.get(key) {
        None => Ok(None),
        Some(JsonValue::Null) => Ok(None),
        Some(JsonValue::Number(n)) => Ok(Some(n.to_float())),
        Some(_) => Err(wrong_type(key)),
    }
}

} // verus!
