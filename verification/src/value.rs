//! JSON values as the coercions read them.

use vstd::prelude::*;

verus! {

/// A JSON number as the parser stores it: a non-negative integer, a negative
/// integer, or a float, carried as its IEEE-754 bit pattern and never read
/// here.
#[derive(Debug, Clone, Copy)]
pub enum JsonNumber {
    /// A non-negative integer.
    PosInt(u64),
    /// A negative integer.
    NegInt(i64),
    /// A float, by its bit pattern.
    Float(u64),
}

/// A JSON value. An object keeps its entries in the order the parser
/// iterates them.
#[derive(Debug)]
pub enum JsonValue {
    /// `null`
    Null,
    /// `true` or `false`
    Bool(bool),
    /// A number.
    Number(JsonNumber),
    /// A string.
    String(String),
    /// An array.
    Array(Vec<JsonValue>),
    /// An object: its keys and values.
    Object(Vec<(String, JsonValue)>),
}

/// The name of a value's JSON type, as error messages give it.
pub open spec fn type_label(v: JsonValue) -> Seq<char> {
    match v {
        JsonValue::Null => "null"@,
        JsonValue::Bool(_) => "bool"@,
        JsonValue::Number(_) => "number"@,
        JsonValue::String(_) => "string"@,
        JsonValue::Array(_) => "array"@,
        JsonValue::Object(_) => "object"@,
    }
}

/// Get a human-readable type name for error messages.
pub fn value_type_name(value: &JsonValue) -> (s: String)
    ensures
        s@ == type_label(*value),
{
    match value {
        JsonValue::Null => "null".to_owned(),
        JsonValue::Bool(_) => "bool".to_owned(),
        JsonValue::Number(_) => "number".to_owned(),
        JsonValue::String(_) => "string".to_owned(),
        JsonValue::Array(_) => "array".to_owned(),
        JsonValue::Object(_) => "object".to_owned(),
    }
}

} // verus!
