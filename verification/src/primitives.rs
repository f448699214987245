//! The coercions behind the primitive deserializers.
//!
//! Each coercion reads a JSON value and either settles it (a value or an
//! error) or hands back the part that only floating-point arithmetic can
//! settle: a float number, or text that is not a decimal integer.

use vstd::prelude::*;
use crate::error::DeserializeError;
use crate::numbers::{parse_i64, parse_u64, parsed_i64, parsed_u64};
use crate::text::{ascii_lower, is_ascii_char, signed_decimal, trim, trim_end_char, trim_end_matches_char, trimmed, push_signed_decimal};
use crate::value::{type_label, value_type_name, JsonNumber, JsonValue};

verus! {

/// What a coercion leaves to floating-point arithmetic.
#[derive(Debug)]
pub enum FloatSource {
    /// A JSON number, to be read as a float.
    Number(JsonNumber),
    /// Text (trimmed, trailing commas removed) that is not a decimal integer.
    Text(String),
}

/// The result of a coercion.
#[derive(Debug)]
pub enum Coerced<T> {
    /// The value.
    Done(T),
    /// Only floating-point arithmetic can settle the result.
    Float(FloatSource),
    /// The value cannot be read as the target type.
    Failed(DeserializeError),
}

/// A coercion's result, stated over plain values.
pub enum Outcome<T> {
    /// The value.
    Done(T),
    /// A float number is left.
    FloatNumber(JsonNumber),
    /// Text is left.
    FloatText(Seq<char>),
    /// A type mismatch: what was expected, what was found.
    Mismatch(Seq<char>, Seq<char>),
}

/// Whether a coercion's result is the stated outcome.
pub open spec fn realizes<T>(r: Coerced<T>, o: Outcome<T>) -> bool {
    match o {
        Outcome::Done(v) => r == Coerced::<T>::Done(v),
        Outcome::FloatNumber(n) => r matches Coerced::Float(FloatSource::Number(m)) && m == n,
        Outcome::FloatText(t) => r matches Coerced::Float(FloatSource::Text(s)) && s@ == t,
        Outcome::Mismatch(expected, found) => r matches Coerced::Failed(
            DeserializeError::TypeMismatch { expected: e, found: f },
        ) && e@ == expected && f@ == found,
    }
}

/// The text a string is read as: trimmed, then stripped of trailing commas.
pub open spec fn number_text(s: Seq<char>) -> Seq<char> {
    trim_end_char(trimmed(s), ',')
}

/// `u as i64`: the two's-complement reading of a `u64`.
pub open spec fn wrapping_i64(u: u64) -> i64 {
    if u <= i64::MAX {
        u as i64
    } else {
        (u as int - 0x1_0000_0000_0000_0000) as i64
    }
}

fn wrap_to_i64(u: u64) -> (r: i64)
    ensures
        r == wrapping_i64(u),
{
    if u <= 9223372036854775807u64 {
        u as i64
    } else {
        ((u - 9223372036854775808u64) as i64) + i64::MIN
    }
}

/// Reading a value as `i64`.
pub open spec fn i64_outcome(v: JsonValue) -> Outcome<i64>
    decreases v,
{
    match v {
        JsonValue::Number(JsonNumber::PosInt(u)) => Outcome::Done(wrapping_i64(u)),
        JsonValue::Number(JsonNumber::NegInt(i)) => Outcome::Done(i),
        JsonValue::Number(JsonNumber::Float(b)) => Outcome::FloatNumber(JsonNumber::Float(b)),
        JsonValue::String(s) => {
            let t = number_text(s@);
            match parsed_i64(t) {
                Some(n) => Outcome::Done(n),
                None => match parsed_u64(t) {
                    Some(u) => Outcome::Done(wrapping_i64(u)),
                    None => Outcome::FloatText(t),
                },
            }
        },
        JsonValue::Array(items) => if items@.len() == 1 {
            i64_outcome(items@[0])
        } else {
            Outcome::Mismatch("integer"@, "array"@)
        },
        _ => Outcome::Mismatch("integer"@, type_label(v)),
    }
}

fn mismatch(expected: &'static str, found: String) -> (r: DeserializeError)
    ensures
        r matches DeserializeError::TypeMismatch { expected: e, found: f } && e@ == expected@ && f@
            == found@,
{
    DeserializeError::TypeMismatch { expected, found }
}

fn number_text_of(s: &String) -> (t: &str)
    ensures
        t@ == number_text(s@),
{
    trim_end_matches_char(trim(s.as_str()), ',')
}

/// Reads a value as `i64`: integers directly (a `u64` above `i64::MAX` wraps),
/// strings as decimal integers after trimming whitespace and trailing commas,
/// a one-element array through its element.
pub fn coerce_i64(value: &JsonValue) -> (r: Coerced<i64>)
    ensures
        realizes(r, i64_outcome(*value)),
    decreases value,
{
    match value {
        JsonValue::Number(JsonNumber::PosInt(u)) => Coerced::Done(wrap_to_i64(*u)),
        JsonValue::Number(JsonNumber::NegInt(i)) => Coerced::Done(*i),
        JsonValue::Number(JsonNumber::Float(b)) => Coerced::Float(
            FloatSource::Number(JsonNumber::Float(*b)),
        ),
        JsonValue::String(s) => {
            let t = number_text_of(s);
            match parse_i64(t) {
                Some(n) => Coerced::Done(n),
                None => match parse_u64(t) {
                    Some(u) => Coerced::Done(wrap_to_i64(u)),
                    None => Coerced::Float(FloatSource::Text(t.to_owned())),
                },
            }
        },
        JsonValue::Array(items) => {
            if items.len() == 1 {
                coerce_i64(&items[0])
            } else {
                Coerced::Failed(mismatch("integer", "array".to_owned()))
            }
        },
        _ => Coerced::Failed(mismatch("integer", value_type_name(value))),
    }
}


/// `negative integer N`
pub open spec fn negative_text(n: i64) -> Seq<char> {
    "negative integer "@ + signed_decimal(n as int)
}

fn negative_found(n: i64) -> (s: String)
    ensures
        s@ == negative_text(n),
{
    let mut s = "negative integer ".to_owned();
    push_signed_decimal(&mut s, n);
    s
}

/// Reading a value as `u64`.
pub open spec fn u64_outcome(v: JsonValue) -> Outcome<u64>
    decreases v,
{
    match v {
        JsonValue::Number(JsonNumber::PosInt(u)) => Outcome::Done(u),
        JsonValue::Number(JsonNumber::NegInt(i)) => if i >= 0 {
            Outcome::Done(i as u64)
        } else {
            Outcome::Mismatch("u64"@, negative_text(i))
        },
        JsonValue::Number(JsonNumber::Float(b)) => Outcome::FloatNumber(JsonNumber::Float(b)),
        JsonValue::String(s) => {
            let t = number_text(s@);
            match parsed_u64(t) {
                Some(u) => Outcome::Done(u),
                None => match parsed_i64(t) {
                    Some(n) => if n >= 0 {
                        Outcome::Done(n as u64)
                    } else {
                        Outcome::Mismatch("u64"@, negative_text(n))
                    },
                    None => Outcome::FloatText(t),
                },
            }
        },
        JsonValue::Array(items) => if items@.len() == 1 {
            u64_outcome(items@[0])
        } else {
            Outcome::Mismatch("u64"@, "array"@)
        },
        _ => Outcome::Mismatch("u64"@, type_label(v)),
    }
}

/// Reads a value as `u64`: non-negative integers directly, negative ones
/// refused, strings as decimal integers after trimming whitespace and
/// trailing commas, a one-element array through its element.
pub fn coerce_u64(value: &JsonValue) -> (r: Coerced<u64>)
    ensures
        realizes(r, u64_outcome(*value)),
    decreases value,
{
    match value {
        JsonValue::Number(JsonNumber::PosInt(u)) => Coerced::Done(*u),
        JsonValue::Number(JsonNumber::NegInt(i)) => {
            if *i >= 0 {
                Coerced::Done(*i as u64)
            } else {
                Coerced::Failed(mismatch("u64", negative_found(*i)))
            }
        },
        JsonValue::Number(JsonNumber::Float(b)) => Coerced::Float(
            FloatSource::Number(JsonNumber::Float(*b)),
        ),
        JsonValue::String(s) => {
            let t = number_text_of(s);
            match parse_u64(t) {
                Some(u) => Coerced::Done(u),
                None => match parse_i64(t) {
                    Some(n) => {
                        if n >= 0 {
                            Coerced::Done(n as u64)
                        } else {
                            Coerced::Failed(mismatch("u64", negative_found(n)))
                        }
                    },
                    None => Coerced::Float(FloatSource::Text(t.to_owned())),
                },
            }
        },
        JsonValue::Array(items) => {
            if items.len() == 1 {
                coerce_u64(&items[0])
            } else {
                Coerced::Failed(mismatch("u64", "array".to_owned()))
            }
        },
        _ => Coerced::Failed(mismatch("u64", value_type_name(value))),
    }
}

/// Reading a value as a float: numbers and strings are left to
/// floating-point arithmetic.
pub open spec fn float_outcome(v: JsonValue) -> Outcome<()>
    decreases v,
{
    match v {
        JsonValue::Number(n) => Outcome::FloatNumber(n),
        JsonValue::String(s) => Outcome::FloatText(number_text(s@)),
        JsonValue::Array(items) => if items@.len() == 1 {
            float_outcome(items@[0])
        } else {
            Outcome::Mismatch("float"@, "array"@)
        },
        _ => Outcome::Mismatch("float"@, type_label(v)),
    }
}

/// Reads a value as a float: a number or a string (trimmed, trailing commas
/// removed) is handed on, a one-element array is read through its element,
/// anything else is a type mismatch.
pub fn coerce_f64(value: &JsonValue) -> (r: Coerced<()>)
    ensures
        realizes(r, float_outcome(*value)),
    decreases value,
{
    match value {
        JsonValue::Number(n) => Coerced::Float(FloatSource::Number(*n)),
        JsonValue::String(s) => {
            let t = number_text_of(s);
            Coerced::Float(FloatSource::Text(t.to_owned()))
        },
        JsonValue::Array(items) => {
            if items.len() == 1 {
                coerce_f64(&items[0])
            } else {
                Coerced::Failed(mismatch("float", "array".to_owned()))
            }
        },
        _ => Coerced::Failed(mismatch("float", value_type_name(value))),
    }
}

/// The Unicode lowercase mapping of a string that is not all ASCII.
pub uninterp spec fn unicode_str_lowercase(s: Seq<char>) -> Seq<char>;

/// The Unicode lowercase mapping of a string: ASCII text has each character
/// mapped to its ASCII lowercase counterpart.
pub open spec fn str_lowercase(s: Seq<char>) -> Seq<char> {
    if forall|i: int| 0 <= i < s.len() ==> is_ascii_char(#[trigger] s[i]) {
        s.map_values(|c: char| ascii_lower(c))
    } else {
        unicode_str_lowercase(s)
    }
}

/// `str::to_lowercase`: the Unicode lowercase mapping of the string. On
/// ASCII text that is the ASCII lowercase mapping of each character; on other
/// text the mapping is named, not spelled out.
#[verifier::external_body]
fn str_to_lowercase(s: &str) -> (r: String)
    ensures
        r@ == (if forall|i: int| 0 <= i < s@.len() ==> is_ascii_char(#[trigger] s@[i]) {
            s@.map_values(|c: char| ascii_lower(c))
        } else {
            unicode_str_lowercase(s@)
        }),
{
    s.to_lowercase()
}

/// `string: S`
pub open spec fn string_found(s: Seq<char>) -> Seq<char> {
    "string: "@ + s
}

/// Reading a value as `bool`.
pub open spec fn bool_outcome(v: JsonValue) -> Outcome<bool>
    decreases v,
{
    match v {
        JsonValue::Bool(b) => Outcome::Done(b),
        JsonValue::String(s) => {
            let l = str_lowercase(s@);
            if l == "true"@ {
                Outcome::Done(true)
            } else if l == "false"@ {
                Outcome::Done(false)
            } else {
                Outcome::Mismatch("bool"@, string_found(s@))
            }
        },
        JsonValue::Number(JsonNumber::PosInt(u)) => Outcome::Done(u != 0),
        JsonValue::Number(JsonNumber::NegInt(i)) => Outcome::Done(i != 0),
        JsonValue::Number(JsonNumber::Float(b)) => Outcome::FloatNumber(JsonNumber::Float(b)),
        JsonValue::Array(items) => if items@.len() == 1 {
            bool_outcome(items@[0])
        } else {
            Outcome::Mismatch("bool"@, "array"@)
        },
        _ => Outcome::Mismatch("bool"@, type_label(v)),
    }
}

/// The type mismatch for a string that cannot be read as `expected`:
/// `string: S` was found.
pub fn string_mismatch(expected: &'static str, s: &str) -> (e: DeserializeError)
    ensures
        e matches DeserializeError::TypeMismatch { expected: x, found: f } && x@ == expected@
            && f@ == string_found(s@),
{
    let mut f = "string: ".to_owned();
    f.append(s);
    mismatch(expected, f)
}

/// Reads a value as `bool`: booleans directly, the strings `true` and
/// `false` in any case, numbers as non-zero, a one-element array through its
/// element. A float number is handed on.
pub fn coerce_bool(value: &JsonValue) -> (r: Coerced<bool>)
    ensures
        realizes(r, bool_outcome(*value)),
    decreases value,
{
    match value {
        JsonValue::Bool(b) => Coerced::Done(*b),
        JsonValue::String(s) => {
            let l = str_to_lowercase(s.as_str());
            if crate::text::str_eq(l.as_str(), "true") {
                Coerced::Done(true)
            } else if crate::text::str_eq(l.as_str(), "false") {
                Coerced::Done(false)
            } else {
                Coerced::Failed(string_mismatch("bool", s.as_str()))
            }
        },
        JsonValue::Number(JsonNumber::PosInt(u)) => Coerced::Done(*u != 0),
        JsonValue::Number(JsonNumber::NegInt(i)) => Coerced::Done(*i != 0),
        JsonValue::Number(JsonNumber::Float(b)) => Coerced::Float(
            FloatSource::Number(JsonNumber::Float(*b)),
        ),
        JsonValue::Array(items) => {
            if items.len() == 1 {
                coerce_bool(&items[0])
            } else {
                Coerced::Failed(mismatch("bool", "array".to_owned()))
            }
        },
        _ => Coerced::Failed(mismatch("bool", value_type_name(value))),
    }
}

/// The result of reading a value as a string.
#[derive(Debug)]
pub enum TextCoerced {
    /// The text.
    Done(String),
    /// The value's JSON text (a float, an array or an object).
    JsonText,
}

/// Reading a value as a string: `None` stands for the value's JSON text.
pub open spec fn text_outcome(v: JsonValue) -> Option<Seq<char>> {
    match v {
        JsonValue::String(s) => Some(s@),
        JsonValue::Number(JsonNumber::PosInt(u)) => Some(signed_decimal(u as int)),
        JsonValue::Number(JsonNumber::NegInt(i)) => Some(signed_decimal(i as int)),
        JsonValue::Bool(b) => Some(if b { "true"@ } else { "false"@ }),
        JsonValue::Null => Some("null"@),
        _ => None,
    }
}

/// Reads a value as a string: strings as they are, integers in decimal,
/// booleans and null by their JSON words; floats, arrays and objects by
/// their JSON text, which is left to the JSON library.
pub fn coerce_string(value: &JsonValue) -> (r: TextCoerced)
    ensures
        match text_outcome(*value) {
            Some(t) => r matches TextCoerced::Done(s) && s@ == t,
            None => r is JsonText,
        },
{
    match value {
        JsonValue::String(s) => TextCoerced::Done(s.clone()),
        JsonValue::Number(JsonNumber::PosInt(u)) => {
            let mut s = String::new();
            crate::text::push_decimal(&mut s, *u);
            TextCoerced::Done(s)
        },
        JsonValue::Number(JsonNumber::NegInt(i)) => {
            let mut s = String::new();
            push_signed_decimal(&mut s, *i);
            TextCoerced::Done(s)
        },
        JsonValue::Bool(b) => TextCoerced::Done(if *b { "true".to_owned() } else { "false".to_owned() }),
        JsonValue::Null => TextCoerced::Done("null".to_owned()),
        _ => TextCoerced::JsonText,
    }
}


/// The strict reading of a value as an integer: only a JSON integer counts.
/// `PosInt` and `NegInt` give their value; floats and every other kind of
/// value give nothing.
pub open spec fn strict_int(v: JsonValue) -> Option<int> {
    match v {
        JsonValue::Number(JsonNumber::PosInt(u)) => Some(u as int),
        JsonValue::Number(JsonNumber::NegInt(i)) => Some(i as int),
        _ => None,
    }
}

/// Strict `i64`: an integer in the range of `i64`.
pub fn try_i64(value: &JsonValue) -> (r: Option<i64>)
    ensures
        match strict_int(*value) {
            Some(n) => if i64::MIN <= n <= i64::MAX {
                r == Some(n as i64)
            } else {
                r is None
            },
            None => r is None,
        },
{
    match value {
        JsonValue::Number(JsonNumber::PosInt(u)) => {
            if *u <= 9223372036854775807u64 {
                Some(*u as i64)
            } else {
                None
            }
        },
        JsonValue::Number(JsonNumber::NegInt(i)) => Some(*i),
        _ => None,
    }
}

/// Strict `u64`: a non-negative integer.
pub fn try_u64(value: &JsonValue) -> (r: Option<u64>)
    ensures
        match strict_int(*value) {
            Some(n) => if 0 <= n { r == Some(n as u64) } else { r is None },
            None => r is None,
        },
{
    match value {
        JsonValue::Number(JsonNumber::PosInt(u)) => Some(*u),
        JsonValue::Number(JsonNumber::NegInt(i)) => {
            if *i >= 0 {
                Some(*i as u64)
            } else {
                None
            }
        },
        _ => None,
    }
}

/// Strict `u128`: a non-negative integer.
pub fn try_u128(value: &JsonValue) -> (r: Option<u128>)
    ensures
        match strict_int(*value) {
            Some(n) => if 0 <= n { r == Some(n as u128) } else { r is None },
            None => r is None,
        },
{
    match try_u64(value) {
        Some(u) => Some(u as u128),
        None => None,
    }
}

/// Strict unsigned integer no larger than `max`.
pub fn try_unsigned_up_to(value: &JsonValue, max: u64) -> (r: Option<u64>)
    ensures
        match strict_int(*value) {
            Some(n) => if 0 <= n <= max { r == Some(n as u64) } else { r is None },
            None => r is None,
        },
{
    match try_u64(value) {
        Some(u) => if u <= max { Some(u) } else { None },
        None => None,
    }
}

/// Strict signed integer within `[min, max]`.
pub fn try_signed_within(value: &JsonValue, min: i64, max: i64) -> (r: Option<i64>)
    ensures
        match strict_int(*value) {
            Some(n) => if min <= n <= max && i64::MIN <= n <= i64::MAX {
                r == Some(n as i64)
            } else {
                r is None
            },
            None => r is None,
        },
{
    match try_i64(value) {
        Some(n) => if min <= n && n <= max { Some(n) } else { None },
        None => None,
    }
}

/// Strict `bool`: a JSON boolean.
pub fn try_bool(value: &JsonValue) -> (r: Option<bool>)
    ensures
        match *value {
            JsonValue::Bool(b) => r == Some(b),
            _ => r is None,
        },
{
    match value {
        JsonValue::Bool(b) => Some(*b),
        _ => None,
    }
}

/// Strict string: a JSON string.
pub fn try_string(value: &JsonValue) -> (r: Option<String>)
    ensures
        match *value {
            JsonValue::String(s) => r matches Some(t) && t@ == s@,
            _ => r is None,
        },
{
    match value {
        JsonValue::String(s) => Some(s.clone()),
        _ => None,
    }
}

/// `integer N out of range`
pub open spec fn signed_range_text(n: i64) -> Seq<char> {
    "integer "@ + signed_decimal(n as int) + " out of range"@
}

/// `integer N out of range (must be 0..=MAX)`
pub open spec fn unsigned_range_text(n: i64, max: u64) -> Seq<char> {
    "integer "@ + signed_decimal(n as int) + " out of range (must be 0..="@
        + signed_decimal(max as int) + ")"@
}

/// Narrows an `i64` to a signed type whose range is `[min, max]`; outside
/// it, the type mismatch `integer N out of range` for `type_label`.
pub fn narrow_signed(n: i64, min: i64, max: i64, label: &'static str) -> (r: Result<
    i64,
    DeserializeError,
>)
    ensures
        min <= n <= max ==> r == Ok::<i64, DeserializeError>(n),
        !(min <= n <= max) ==> (r matches Err(DeserializeError::TypeMismatch { expected: e, found: f })
            && e@ == label@ && f@ == signed_range_text(n)),
{
    if min <= n && n <= max {
        Ok(n)
    } else {
        let mut f = "integer ".to_owned();
        push_signed_decimal(&mut f, n);
        f.append(" out of range");
        Err(mismatch(label, f))
    }
}

/// Narrows an `i64` to an unsigned type whose range is `[0, max]`; outside
/// it, the type mismatch `integer N out of range (must be 0..=MAX)`.
pub fn narrow_unsigned(n: i64, max: u64, label: &'static str) -> (r: Result<u64, DeserializeError>)
    ensures
        0 <= n <= max ==> r == Ok::<u64, DeserializeError>(n as u64),
        !(0 <= n <= max) ==> (r matches Err(DeserializeError::TypeMismatch { expected: e, found: f })
            && e@ == label@ && f@ == unsigned_range_text(n, max)),
{
    if 0 <= n && (n as u64) <= max {
        Ok(n as u64)
    } else {
        let mut f = "integer ".to_owned();
        push_signed_decimal(&mut f, n);
        f.append(" out of range (must be 0..=");
        crate::text::push_decimal(&mut f, max);
        f.append(")");
        Err(mismatch(label, f))
    }
}


/// Narrows an `i64` to `i8`, refusing values out of its range.
pub fn narrow_i8(n: i64) -> (r: Result<i8, DeserializeError>)
    ensures
        i8::MIN <= n <= i8::MAX ==> r == Ok::<i8, DeserializeError>(n as i8),
        !(i8::MIN <= n <= i8::MAX) ==> (r matches Err(DeserializeError::TypeMismatch { expected: e, found: f })
            && e@ == "i8"@ && f@ == signed_range_text(n)),
{
    match narrow_signed(n, i8::MIN as i64, i8::MAX as i64, "i8") {
        Ok(v) => Ok(v as i8),
        Err(e) => Err(e),
    }
}

/// Narrows an `i64` to `i16`, refusing values out of its range.
pub fn narrow_i16(n: i64) -> (r: Result<i16, DeserializeError>)
    ensures
        i16::MIN <= n <= i16::MAX ==> r == Ok::<i16, DeserializeError>(n as i16),
        !(i16::MIN <= n <= i16::MAX) ==> (r matches Err(DeserializeError::TypeMismatch { expected: e, found: f })
            && e@ == "i16"@ && f@ == signed_range_text(n)),
{
    match narrow_signed(n, i16::MIN as i64, i16::MAX as i64, "i16") {
        Ok(v) => Ok(v as i16),
        Err(e) => Err(e),
    }
}

/// Narrows an `i64` to `i32`, refusing values out of its range.
pub fn narrow_i32(n: i64) -> (r: Result<i32, DeserializeError>)
    ensures
        i32::MIN <= n <= i32::MAX ==> r == Ok::<i32, DeserializeError>(n as i32),
        !(i32::MIN <= n <= i32::MAX) ==> (r matches Err(DeserializeError::TypeMismatch { expected: e, found: f })
            && e@ == "i32"@ && f@ == signed_range_text(n)),
{
    match narrow_signed(n, i32::MIN as i64, i32::MAX as i64, "i32") {
        Ok(v) => Ok(v as i32),
        Err(e) => Err(e),
    }
}

/// Narrows an `i64` to `isize`, refusing values out of its range.
pub fn narrow_isize(n: i64) -> (r: Result<isize, DeserializeError>)
    ensures
        isize::MIN <= n <= isize::MAX ==> r == Ok::<isize, DeserializeError>(n as isize),
        !(isize::MIN <= n <= isize::MAX) ==> (r matches Err(DeserializeError::TypeMismatch { expected: e, found: f })
            && e@ == "isize"@ && f@ == signed_range_text(n)),
{
    match narrow_signed(n, isize::MIN as i64, isize::MAX as i64, "isize") {
        Ok(v) => Ok(v as isize),
        Err(e) => Err(e),
    }
}

/// Narrows an `i64` to `u8`, refusing values out of its range.
pub fn narrow_u8(n: i64) -> (r: Result<u8, DeserializeError>)
    ensures
        0 <= n <= u8::MAX ==> r == Ok::<u8, DeserializeError>(n as u8),
        !(0 <= n <= u8::MAX) ==> (r matches Err(DeserializeError::TypeMismatch { expected: e, found: f })
            && e@ == "u8"@ && f@ == unsigned_range_text(n, u8::MAX as u64)),
{
    match narrow_unsigned(n, u8::MAX as u64, "u8") {
        Ok(v) => Ok(v as u8),
        Err(e) => Err(e),
    }
}

/// Narrows an `i64` to `u16`, refusing values out of its range.
pub fn narrow_u16(n: i64) -> (r: Result<u16, DeserializeError>)
    ensures
        0 <= n <= u16::MAX ==> r == Ok::<u16, DeserializeError>(n as u16),
        !(0 <= n <= u16::MAX) ==> (r matches Err(DeserializeError::TypeMismatch { expected: e, found: f })
            && e@ == "u16"@ && f@ == unsigned_range_text(n, u16::MAX as u64)),
{
    match narrow_unsigned(n, u16::MAX as u64, "u16") {
        Ok(v) => Ok(v as u16),
        Err(e) => Err(e),
    }
}

/// Narrows an `i64` to `u32`, refusing values out of its range.
pub fn narrow_u32(n: i64) -> (r: Result<u32, DeserializeError>)
    ensures
        0 <= n <= u32::MAX ==> r == Ok::<u32, DeserializeError>(n as u32),
        !(0 <= n <= u32::MAX) ==> (r matches Err(DeserializeError::TypeMismatch { expected: e, found: f })
            && e@ == "u32"@ && f@ == unsigned_range_text(n, u32::MAX as u64)),
{
    match narrow_unsigned(n, u32::MAX as u64, "u32") {
        Ok(v) => Ok(v as u32),
        Err(e) => Err(e),
    }
}

/// Narrows an `i64` to `usize`, refusing values out of its range.
pub fn narrow_usize(n: i64) -> (r: Result<usize, DeserializeError>)
    ensures
        0 <= n <= usize::MAX ==> r == Ok::<usize, DeserializeError>(n as usize),
        !(0 <= n <= usize::MAX) ==> (r matches Err(DeserializeError::TypeMismatch { expected: e, found: f })
            && e@ == "usize"@ && f@ == unsigned_range_text(n, usize::MAX as u64)),
{
    match narrow_unsigned(n, usize::MAX as u64, "usize") {
        Ok(v) => Ok(v as usize),
        Err(e) => Err(e),
    }
}

/// Widens an `i64` to `i128`; every `i64` fits.
pub fn narrow_i128(n: i64) -> (r: Result<i128, DeserializeError>)
    ensures
        r == Ok::<i128, DeserializeError>(n as i128),
{
    Ok(n as i128)
}


/// A one-element array reads as its element, whichever way it is read.
pub proof fn lemma_singleton_array_reads_as_element(items: Vec<JsonValue>)
    requires
        items@.len() == 1,
    ensures
        i64_outcome(JsonValue::Array(items)) == i64_outcome(items@[0]),
        u64_outcome(JsonValue::Array(items)) == u64_outcome(items@[0]),
        bool_outcome(JsonValue::Array(items)) == bool_outcome(items@[0]),
        float_outcome(JsonValue::Array(items)) == float_outcome(items@[0]),
{
}

/// Whatever the strict reading accepts, the lenient reading gives the same
/// value: an integer that fits is read as itself, a boolean as itself, a
/// string as itself.
pub proof fn lemma_strict_agrees_with_lenient(v: JsonValue)
    ensures
        strict_int(v) matches Some(n) ==> (i64::MIN <= n <= i64::MAX ==> i64_outcome(v)
            == Outcome::<i64>::Done(n as i64)),
        strict_int(v) matches Some(n) ==> (0 <= n ==> u64_outcome(v) == Outcome::<u64>::Done(
            n as u64,
        )),
        v matches JsonValue::Bool(b) ==> bool_outcome(v) == Outcome::<bool>::Done(b),
        v matches JsonValue::String(s) ==> text_outcome(v) == Some(s@),
{
}

/// A string that is not a decimal integer is handed on to float parsing by
/// every integer reading, as the same text the float reading gets; a `u64`
/// reading of a string fails only on a negative integer.
pub proof fn lemma_non_integer_text_goes_to_floats(s: String)
    ensures
        ({
            let v = JsonValue::String(s);
            let t = number_text(s@);
            &&& float_outcome(v) == Outcome::<()>::FloatText(t)
            &&& parsed_u64(t) is None && parsed_i64(t) is None ==> i64_outcome(v)
                == Outcome::<i64>::FloatText(t) && u64_outcome(v) == Outcome::<u64>::FloatText(t)
            &&& u64_outcome(v) matches Outcome::Mismatch(_, found) ==> parsed_i64(t) matches Some(
                n,
            ) && n < 0 && found == negative_text(n)
        }),
{
}

/// Reading a value as a float hands a number on unchanged; in particular an
/// integer is handed on as a number that still reads as that same integer.
pub proof fn lemma_float_reading_keeps_numbers(v: JsonValue)
    ensures
        v matches JsonValue::Number(n) ==> float_outcome(v) == Outcome::<()>::FloatNumber(n),
        strict_int(v) matches Some(k) ==> float_outcome(v) matches Outcome::FloatNumber(m)
            && strict_int(JsonValue::Number(m)) == Some(k),
{
}

/// A string reads as a boolean through its lowercase form: two strings with
/// the same lowercase form read as the same boolean, and ASCII text that
/// lowercases to `true` or `false` reads as that boolean whatever its case.
pub proof fn lemma_bool_text_ignores_case(s: String, s2: String)
    ensures
        str_lowercase(s@) == str_lowercase(s2@) ==> forall|b: bool|
            bool_outcome(JsonValue::String(s)) == Outcome::<bool>::Done(b) <==> bool_outcome(
                JsonValue::String(s2),
            ) == Outcome::<bool>::Done(b),
        (forall|i: int| 0 <= i < s@.len() ==> is_ascii_char(#[trigger] s@[i])) && s@.map_values(
            |c: char| ascii_lower(c),
        ) == "true"@ ==> bool_outcome(JsonValue::String(s)) == Outcome::<bool>::Done(true),
        (forall|i: int| 0 <= i < s@.len() ==> is_ascii_char(#[trigger] s@[i])) && s@.map_values(
            |c: char| ascii_lower(c),
        ) == "false"@ ==> bool_outcome(JsonValue::String(s)) == Outcome::<bool>::Done(false),
{
    reveal_strlit("true");
    reveal_strlit("false");
    assert("false"@.len() != "true"@.len());
}

/// A number reads as a string in decimal exactly when it is an integer, and
/// that text parses back to the integer; a float is left to its JSON text.
pub proof fn lemma_numbers_read_as_text_by_value(n: JsonNumber)
    ensures
        text_outcome(JsonValue::Number(n)) is Some <==> strict_int(JsonValue::Number(n)) is Some,
        strict_int(JsonValue::Number(n)) matches Some(k) ==> text_outcome(JsonValue::Number(n))
            == Some(signed_decimal(k)),
        n matches JsonNumber::PosInt(u) ==> text_outcome(JsonValue::Number(n)) matches Some(t)
            && parsed_u64(t) == Some(u),
        n matches JsonNumber::NegInt(i) ==> text_outcome(JsonValue::Number(n)) matches Some(t)
            && parsed_i64(t) == Some(i),
{
    match n {
        JsonNumber::PosInt(u) => {
            crate::numbers::lemma_u64_decimal_round_trip(u);
        },
        JsonNumber::NegInt(i) => {
            crate::numbers::lemma_i64_decimal_round_trip(i);
        },
        JsonNumber::Float(_) => {},
    }
}

/// Only numbers, strings and one-element arrays can be read as integers:
/// null, a boolean or an object is a type mismatch that names what was found,
/// for `i64` and `u64` alike.
pub proof fn lemma_only_numbers_strings_arrays_read_as_integers(v: JsonValue)
    ensures
        i64_outcome(v) is Done ==> (v is Number || v is String || v is Array),
        u64_outcome(v) is Done ==> (v is Number || v is String || v is Array),
        !(v is Number || v is String || v is Array) ==> i64_outcome(v) == Outcome::<i64>::Mismatch(
            "integer"@,
            type_label(v),
        ) && u64_outcome(v) == Outcome::<u64>::Mismatch("u64"@, type_label(v)),
{
}

proof fn lemma_decimal_text_is_its_own_number_text(n: int)
    ensures
        number_text(signed_decimal(n)) == signed_decimal(n),
{
    let t = signed_decimal(n);
    let m: nat = if n < 0 { (-n) as nat } else { n as nat };
    crate::numbers::lemma_decimal_digits(m);
    let d = crate::text::decimal(m);
    assert(crate::numbers::is_digit(d[0]));
    assert(crate::numbers::is_digit(d[d.len() - 1]));
    assert(t.len() > 0 && t.last() == d.last());
    assert(!crate::text::white_space(t[0]));
    assert(!crate::text::white_space(t.last()));
    assert(crate::text::trim_start(t) == t);
    assert(crate::text::trim_end(t) == t);
}

/// The decimal text of an `i64` reads back as that integer, as `i64` and,
/// when it is not negative, as `u64`.
pub proof fn lemma_signed_text_reads_back(s: String, n: i64)
    requires
        s@ == signed_decimal(n as int),
    ensures
        i64_outcome(JsonValue::String(s)) == Outcome::<i64>::Done(n),
        n >= 0 ==> u64_outcome(JsonValue::String(s)) == Outcome::<u64>::Done(n as u64),
{
    lemma_decimal_text_is_its_own_number_text(n as int);
    crate::numbers::lemma_i64_decimal_round_trip(n);
    if n >= 0 {
        crate::numbers::lemma_u64_decimal_round_trip(n as u64);
    }
}

/// The decimal text of a `u64` reads back as that integer as `u64`, and as
/// `i64` with two's-complement wrapping above `i64::MAX`.
pub proof fn lemma_unsigned_text_reads_back(s: String, u: u64)
    requires
        s@ == crate::text::decimal(u as nat),
    ensures
        u64_outcome(JsonValue::String(s)) == Outcome::<u64>::Done(u),
        i64_outcome(JsonValue::String(s)) == Outcome::<i64>::Done(wrapping_i64(u)),
{
    lemma_decimal_text_is_its_own_number_text(u as int);
    crate::numbers::lemma_u64_decimal_round_trip(u);
    crate::numbers::lemma_decimal_digits(u as nat);
    let d = crate::text::decimal(u as nat);
    assert(crate::numbers::is_digit(d[0]));
    assert(!crate::numbers::has_sign(d, true));
}

/// Null and objects are never read as a boolean, a float or an integer; each
/// reading is a type mismatch naming what was found.
pub proof fn lemma_null_and_objects_are_refused(v: JsonValue)
    requires
        v is Null || v is Object,
    ensures
        bool_outcome(v) == Outcome::<bool>::Mismatch("bool"@, type_label(v)),
        float_outcome(v) == Outcome::<()>::Mismatch("float"@, type_label(v)),
        i64_outcome(v) == Outcome::<i64>::Mismatch("integer"@, type_label(v)),
        u64_outcome(v) == Outcome::<u64>::Mismatch("u64"@, type_label(v)),
{
}

} // verus!
