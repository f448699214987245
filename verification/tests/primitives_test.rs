use std::collections::HashMap;

use tryparse::collections::{
    deserialize_map_with, deserialize_vec_with, try_deserialize_map_with, try_deserialize_vec_with,
};
use tryparse::error::{DeserializeError, ParseError};
use tryparse::numbers::{parse_i64, parse_u64};
use tryparse::primitives::{
    coerce_bool, coerce_f64, coerce_i64, coerce_string, coerce_u64, narrow_i128, narrow_i32,
    narrow_i8, narrow_u32, narrow_u8, narrow_usize, string_mismatch, try_bool, try_i64, try_string,
    try_u128, try_u64, try_unsigned_up_to, Coerced, FloatSource, TextCoerced,
};
use tryparse::value::{value_type_name, JsonNumber, JsonValue};

fn integer(n: i64) -> JsonValue {
    if n >= 0 {
        JsonValue::Number(JsonNumber::PosInt(n as u64))
    } else {
        JsonValue::Number(JsonNumber::NegInt(n))
    }
}

fn text(s: &str) -> JsonValue {
    JsonValue::String(s.to_string())
}

fn object(entries: Vec<(&str, JsonValue)>) -> JsonValue {
    JsonValue::Object(entries.into_iter().map(|(k, v)| (k.to_string(), v)).collect())
}

/// Reads an integer the lenient way; text that is not a decimal integer is
/// tried as a plain float and rounded, which is all these inputs need.
fn lenient_i64(v: &JsonValue) -> Result<i64, ParseError> {
    match coerce_i64(v) {
        Coerced::Done(n) => Ok(n),
        Coerced::Failed(e) => Err(ParseError::DeserializeFailed(e)),
        Coerced::Float(FloatSource::Text(s)) => match s.parse::<f64>() {
            Ok(f) => Ok(f.round() as i64),
            Err(_) => Err(ParseError::DeserializeFailed(string_mismatch("integer", &s))),
        },
        Coerced::Float(FloatSource::Number(_)) => {
            Err(ParseError::DeserializeFailed(DeserializeError::type_mismatch("integer", "float")))
        }
    }
}

fn lenient_string(v: &JsonValue) -> Result<String, ParseError> {
    match coerce_string(v) {
        TextCoerced::Done(s) => Ok(s),
        TextCoerced::JsonText => Err(ParseError::InvalidConfig("json text".to_string())),
    }
}

fn done<T: std::fmt::Debug>(c: Coerced<T>) -> T {
    match c {
        Coerced::Done(v) => v,
        other => panic!("expected a value, got {:?}", other),
    }
}

#[test]
fn test_i64_direct() {
    assert_eq!(done(coerce_i64(&integer(42))), 42);
}

#[test]
fn test_i64_from_string() {
    assert_eq!(done(coerce_i64(&text("42"))), 42);
}

#[test]
fn test_i64_array_unwrap() {
    assert_eq!(done(coerce_i64(&JsonValue::Array(vec![integer(42)]))), 42);
}

#[test]
fn test_bool_from_string() {
    assert!(done(coerce_bool(&text("true"))));
    assert!(!done(coerce_bool(&text("FALSE"))));
}

#[test]
fn test_bool_from_number() {
    assert!(done(coerce_bool(&integer(1))));
    assert!(!done(coerce_bool(&integer(0))));
}

#[test]
fn test_string_from_number() {
    match coerce_string(&integer(42)) {
        TextCoerced::Done(s) => assert_eq!(s, "42"),
        TextCoerced::JsonText => panic!("expected text"),
    }
}

#[test]
fn test_try_deserialize_fast_path() {
    // Fast path should work
    assert_eq!(try_i64(&integer(42)), Some(42));
    // Fast path should fail for string
    assert_eq!(try_i64(&text("42")), None);
}

#[test]
fn test_hashmap_string_to_int() {
    let value = object(vec![("one", integer(1)), ("two", integer(2)), ("three", integer(3))]);
    let map: HashMap<String, i64> =
        deserialize_map_with(&value, |k: &String| Ok(k.clone()), lenient_i64).unwrap();
    assert_eq!(map.len(), 3);
    assert_eq!(map.get("one"), Some(&1));
    assert_eq!(map.get("two"), Some(&2));
    assert_eq!(map.get("three"), Some(&3));
}

#[test]
fn test_hashmap_int_to_string() {
    let value = object(vec![("1", text("one")), ("2", text("two")), ("3", text("three"))]);
    let map: HashMap<i64, String> = deserialize_map_with(
        &value,
        |k: &String| lenient_i64(&JsonValue::String(k.clone())),
        lenient_string,
    )
    .unwrap();
    assert_eq!(map.len(), 3);
    assert_eq!(map.get(&1), Some(&"one".to_string()));
    assert_eq!(map.get(&2), Some(&"two".to_string()));
    assert_eq!(map.get(&3), Some(&"three".to_string()));
}

#[test]
fn test_hashmap_with_coercion() {
    let value = object(vec![("one", text("1")), ("two", text("2")), ("three", text("3"))]);
    let map: HashMap<String, i64> =
        deserialize_map_with(&value, |k: &String| Ok(k.clone()), lenient_i64).unwrap();
    assert_eq!(map.len(), 3);
    assert_eq!(map.get("one"), Some(&1));
    assert_eq!(map.get("two"), Some(&2));
    assert_eq!(map.get("three"), Some(&3));
}

#[test]
fn test_hashmap_strict_mode() {
    let value = object(vec![("one", integer(1)), ("two", integer(2))]);
    let map = try_deserialize_map_with(&value, |k: &String| Some(k.clone()), try_i64);
    assert!(map.is_some());
    let map: HashMap<String, i64> = map.unwrap();
    assert_eq!(map.len(), 2);
}

#[test]
fn test_hashmap_strict_mode_fails() {
    let value = object(vec![("one", text("1")), ("two", integer(2))]);
    let map = try_deserialize_map_with(&value, |k: &String| Some(k.clone()), try_i64);
    assert!(map.is_none());
}

#[test]
fn test_hashmap_empty() {
    let value = object(vec![]);
    let map: HashMap<String, i64> =
        deserialize_map_with(&value, |k: &String| Ok(k.clone()), lenient_i64).unwrap();
    assert_eq!(map.len(), 0);
}

#[test]
fn test_hashmap_with_invalid_value() {
    let value = object(vec![("one", integer(1)), ("two", text("not a number")), ("three", integer(3))]);
    let map: HashMap<String, i64> =
        deserialize_map_with(&value, |k: &String| Ok(k.clone()), lenient_i64).unwrap();
    assert_eq!(map.len(), 2);
    assert_eq!(map.get("one"), Some(&1));
    assert_eq!(map.get("three"), Some(&3));
}

#[test]
fn test_i32_direct() {
    assert_eq!(narrow_i32(done(coerce_i64(&integer(42)))).unwrap(), 42);
}

#[test]
fn test_i32_from_string() {
    assert_eq!(narrow_i32(done(coerce_i64(&text("42")))).unwrap(), 42);
}

#[test]
fn test_i32_overflow() {
    assert!(narrow_i32(done(coerce_i64(&integer(i64::MAX)))).is_err());
}

#[test]
fn test_u32_direct() {
    assert_eq!(narrow_u32(done(coerce_i64(&integer(42)))).unwrap(), 42);
}

#[test]
fn test_u32_from_string() {
    assert_eq!(narrow_u32(done(coerce_i64(&text("42")))).unwrap(), 42);
}

#[test]
fn test_u32_negative_fails() {
    assert!(narrow_u32(done(coerce_i64(&integer(-1)))).is_err());
}

#[test]
fn test_u64_direct() {
    assert_eq!(done(coerce_u64(&integer(42))), 42);
}

#[test]
fn test_u64_large_value() {
    let large = u64::MAX / 2;
    assert_eq!(done(coerce_u64(&JsonValue::Number(JsonNumber::PosInt(large)))), large);
}

#[test]
fn test_u64_from_string() {
    assert_eq!(done(coerce_u64(&text("12345"))), 12345);
}

#[test]
fn test_u64_negative_fails() {
    assert!(matches!(coerce_u64(&integer(-1)), Coerced::Failed(_)));
}

#[test]
fn test_usize_direct() {
    assert_eq!(narrow_usize(done(coerce_i64(&integer(100)))).unwrap(), 100);
}

#[test]
fn test_usize_from_string() {
    assert_eq!(narrow_usize(done(coerce_i64(&text("100")))).unwrap(), 100);
}

#[test]
fn test_i8_range() {
    assert_eq!(narrow_i8(done(coerce_i64(&integer(127)))).unwrap(), 127);
    assert_eq!(narrow_i8(done(coerce_i64(&integer(-128)))).unwrap(), -128);
    assert!(narrow_i8(done(coerce_i64(&integer(128)))).is_err());
}

#[test]
fn test_u8_range() {
    assert_eq!(narrow_u8(done(coerce_i64(&integer(255)))).unwrap(), 255);
    assert_eq!(narrow_u8(done(coerce_i64(&integer(0)))).unwrap(), 0);
    assert!(narrow_u8(done(coerce_i64(&integer(256)))).is_err());
}

#[test]
fn test_i128_direct() {
    assert_eq!(narrow_i128(done(coerce_i64(&integer(42)))).unwrap(), 42);
}

#[test]
fn test_u128_direct() {
    assert_eq!(u128::from(done(coerce_u64(&integer(42)))), 42);
}

// ----- Further cases -----

#[test]
fn integer_text_is_trimmed_and_loses_trailing_commas() {
    assert_eq!(done(coerce_i64(&text("  -17,, "))), -17);
    assert_eq!(done(coerce_i64(&text("+8"))), 8);
    assert_eq!(done(coerce_u64(&text("\t99,\n"))), 99);
}

#[test]
fn large_unsigned_text_wraps_into_i64() {
    // Above i64::MAX, the u64 reading is taken and reinterpreted.
    assert_eq!(done(coerce_i64(&text("18446744073709551615"))), -1);
    assert_eq!(
        done(coerce_i64(&JsonValue::Number(JsonNumber::PosInt(9223372036854775808)))),
        i64::MIN
    );
}

#[test]
fn non_integer_text_is_left_to_floats() {
    match coerce_i64(&text(" 1/2 ")) {
        Coerced::Float(FloatSource::Text(s)) => assert_eq!(s, "1/2"),
        other => panic!("unexpected {:?}", other),
    }
    match coerce_i64(&JsonValue::Number(JsonNumber::Float(42.7f64.to_bits()))) {
        Coerced::Float(FloatSource::Number(JsonNumber::Float(b))) => {
            assert_eq!(f64::from_bits(b), 42.7)
        }
        other => panic!("unexpected {:?}", other),
    }
    match coerce_f64(&JsonValue::Array(vec![text("$1,234.56,")])) {
        Coerced::Float(FloatSource::Text(s)) => assert_eq!(s, "$1,234.56"),
        other => panic!("unexpected {:?}", other),
    }
}

#[test]
fn type_mismatches_name_what_was_found() {
    match coerce_i64(&JsonValue::Null) {
        Coerced::Failed(e) => assert_eq!(e.to_string(), "Type mismatch: expected integer, found null"),
        other => panic!("unexpected {:?}", other),
    }
    match coerce_i64(&JsonValue::Array(vec![integer(1), integer(2)])) {
        Coerced::Failed(e) => {
            assert_eq!(e.to_string(), "Type mismatch: expected integer, found array")
        }
        other => panic!("unexpected {:?}", other),
    }
    match coerce_u64(&text("-5")) {
        Coerced::Failed(e) => {
            assert_eq!(e.to_string(), "Type mismatch: expected u64, found negative integer -5")
        }
        other => panic!("unexpected {:?}", other),
    }
    match coerce_bool(&text("yes")) {
        Coerced::Failed(e) => {
            assert_eq!(e.to_string(), "Type mismatch: expected bool, found string: yes")
        }
        other => panic!("unexpected {:?}", other),
    }
    match coerce_f64(&JsonValue::Bool(true)) {
        Coerced::Failed(e) => assert_eq!(e.to_string(), "Type mismatch: expected float, found bool"),
        other => panic!("unexpected {:?}", other),
    }
    assert_eq!(value_type_name(&object(vec![])), "object");
}

#[test]
fn range_errors_are_exact() {
    assert_eq!(
        narrow_i8(300).unwrap_err().to_string(),
        "Type mismatch: expected i8, found integer 300 out of range"
    );
    assert_eq!(
        narrow_u8(-1).unwrap_err().to_string(),
        "Type mismatch: expected u8, found integer -1 out of range (must be 0..=255)"
    );
}

#[test]
fn strings_from_other_values() {
    let read = |v: JsonValue| match coerce_string(&v) {
        TextCoerced::Done(s) => Some(s),
        TextCoerced::JsonText => None,
    };
    assert_eq!(read(integer(-7)), Some("-7".to_string()));
    assert_eq!(read(JsonValue::Bool(false)), Some("false".to_string()));
    assert_eq!(read(JsonValue::Null), Some("null".to_string()));
    assert_eq!(read(JsonValue::Array(vec![])), None);
    assert_eq!(try_string(&text("x")), Some("x".to_string()));
    assert_eq!(try_string(&integer(1)), None);
}

#[test]
fn strict_readings() {
    assert_eq!(try_u64(&integer(-1)), None);
    assert_eq!(try_u64(&integer(5)), Some(5));
    assert_eq!(try_u128(&integer(5)), Some(5));
    assert_eq!(try_unsigned_up_to(&integer(256), 255), None);
    assert_eq!(try_unsigned_up_to(&integer(255), 255), Some(255));
    assert_eq!(try_bool(&JsonValue::Bool(true)), Some(true));
    assert_eq!(try_bool(&text("true")), None);
    assert_eq!(try_i64(&JsonValue::Number(JsonNumber::PosInt(u64::MAX))), None);
}

#[test]
fn vec_readings() {
    let v = JsonValue::Array(vec![integer(1), text("2")]);
    assert_eq!(deserialize_vec_with(&v, lenient_i64).unwrap(), vec![1, 2]);
    // A single value becomes a one-item list.
    assert_eq!(deserialize_vec_with(&integer(7), lenient_i64).unwrap(), vec![7]);
    // The first failing item decides.
    let bad = JsonValue::Array(vec![integer(1), JsonValue::Null]);
    assert!(deserialize_vec_with(&bad, lenient_i64).is_err());
    assert_eq!(try_deserialize_vec_with(&v, try_i64), None);
    assert_eq!(
        try_deserialize_vec_with(&JsonValue::Array(vec![integer(3)]), try_i64),
        Some(vec![3])
    );
    assert_eq!(try_deserialize_vec_with(&integer(3), try_i64), None);
}

#[test]
fn vec_error_is_the_first_failing_item() {
    let bad = JsonValue::Array(vec![integer(1), text("x"), JsonValue::Null]);
    match deserialize_vec_with(&bad, lenient_i64) {
        Err(ParseError::DeserializeFailed(e)) => {
            assert_eq!(e.to_string(), "Type mismatch: expected integer, found string: x")
        }
        other => panic!("expected the first item's error, got {:?}", other),
    }
}

#[test]
fn later_duplicate_key_replaces_earlier() {
    let value = JsonValue::Object(vec![
        ("a".to_string(), integer(1)),
        ("b".to_string(), text("skip me")),
        ("a".to_string(), integer(2)),
    ]);
    let map: HashMap<String, i64> =
        deserialize_map_with(&value, |k: &String| Ok(k.clone()), lenient_i64).unwrap();
    assert_eq!(map.len(), 1);
    assert_eq!(map.get("a"), Some(&2));
    let strict: Option<HashMap<String, i64>> =
        try_deserialize_map_with(&value, |k: &String| Some(k.clone()), try_i64);
    assert!(strict.is_none());
}

#[test]
fn map_of_non_object_is_a_mismatch() {
    let r: Result<HashMap<String, i64>, ParseError> =
        deserialize_map_with(&integer(1), |k: &String| Ok(k.clone()), lenient_i64);
    match r {
        Err(ParseError::DeserializeFailed(e)) => {
            assert_eq!(e.to_string(), "Type mismatch: expected object, found non-object")
        }
        _ => panic!("expected a type mismatch"),
    }
}

#[test]
fn decimal_parsing_round_trips() {
    for n in [0i64, 7, -7, 42, i64::MAX, i64::MIN, 1234567890] {
        let shown = match coerce_string(&integer(n)) {
            TextCoerced::Done(s) => s,
            TextCoerced::JsonText => panic!("expected text"),
        };
        assert_eq!(shown, n.to_string());
        assert_eq!(parse_i64(&shown), Some(n));
    }
    assert_eq!(parse_u64("18446744073709551615"), Some(u64::MAX));
    assert_eq!(parse_u64("18446744073709551616"), None);
    assert_eq!(parse_u64("-1"), None);
    assert_eq!(parse_i64("-9223372036854775809"), None);
    assert_eq!(parse_i64("+"), None);
    assert_eq!(parse_i64(""), None);
    assert_eq!(parse_i64("0012"), Some(12));
    assert_eq!(parse_i64("1 2"), None);
}
