use json::number::Number;
use json::short::{Short, MAX_LEN};
use json::value::{JsonValue, Object};

#[test]
fn short_strings_are_stored_inline() {
    assert!(matches!(JsonValue::from(""), JsonValue::Short(_)));
    assert!(matches!(JsonValue::from("a".repeat(MAX_LEN).as_str()), JsonValue::Short(_)));
    assert!(matches!(JsonValue::from("a".repeat(MAX_LEN + 1).as_str()), JsonValue::String(_)));
    assert!(matches!(JsonValue::from("é".repeat(15).as_str()), JsonValue::Short(_)));
    assert!(matches!(JsonValue::from("é".repeat(16).as_str()), JsonValue::String(_)));
}

#[test]
fn short_keeps_its_text() {
    assert_eq!(Short::from_slice("").as_str(), "");
    assert_eq!(Short::from_slice("héllo 鍵").as_str(), "héllo 鍵");
    let longest = "x".repeat(MAX_LEN);
    assert_eq!(Short::from_slice(&longest).as_str(), longest);
}

#[test]
fn number_parts() {
    assert_eq!(Number::from(5u8).as_parts(), (true, 5));
    assert_eq!(Number::from(-5i8).as_parts(), (false, 5));
    assert_eq!(Number::from(0i8).as_parts(), (true, 0));
    assert_eq!(Number::from(i64::MIN).as_parts(), (false, 9223372036854775808));
    assert_eq!(Number::from(u64::MAX).as_parts(), (true, u64::MAX));
    assert_eq!(Number::from_parts(false, 0).as_parts(), (true, 0));
    assert_eq!(Number::from_parts(false, 3).as_parts(), (false, 3));
    assert!(Number::from_parts(false, 0) == Number::from(0u8));
    assert!(Number::from(-3i16) == Number::from(-3i64));
    assert!(Number::from(3i16) != Number::from(-3i64));
    assert!(Number::from(3usize) == Number::from(3isize));
}

#[test]
fn conversions_into_values() {
    assert!(matches!(JsonValue::from(String::from("x")), JsonValue::String(_)));
    assert!(matches!(JsonValue::from(true), JsonValue::Boolean(true)));
    assert!(matches!(JsonValue::from(Number::from(1u8)), JsonValue::Number(_)));
    assert!(matches!(JsonValue::from(Object::new()), JsonValue::Object(_)));
    assert!(matches!(JsonValue::from(None::<bool>), JsonValue::Null));
    assert!(matches!(JsonValue::from(Some(false)), JsonValue::Boolean(false)));
    assert!(matches!(JsonValue::default(), JsonValue::Null));
    let array = JsonValue::from(vec![1u8, 2, 3]);
    assert_eq!(array.dump(), "[1,2,3]");
    let empty = JsonValue::from(Vec::<bool>::new());
    assert_eq!(empty.dump(), "[]");
    let nested = JsonValue::from(vec![Some("a"), None]);
    assert_eq!(nested.dump(), "[\"a\",null]");
}

#[test]
fn values_compare_by_content() {
    assert!(JsonValue::Null == JsonValue::Null);
    assert!(JsonValue::Null != JsonValue::Boolean(false));
    assert!(JsonValue::from("abc") == JsonValue::String(String::from("abc")));
    assert!(JsonValue::String(String::from("abc")) == JsonValue::from("abc"));
    assert!(JsonValue::from("abc") != JsonValue::from("abd"));
    assert!(JsonValue::from(1u8) == JsonValue::from(1i64));
    assert!(JsonValue::from(1u8) != JsonValue::from(-1i64));
    assert!(JsonValue::from(0u8) != JsonValue::Null);
    assert!(JsonValue::from(vec![1u8, 2]) == JsonValue::from(vec![1u16, 2]));
    assert!(JsonValue::from(vec![1u8, 2]) != JsonValue::from(vec![2u8, 1]));
    assert!(JsonValue::from(vec![1u8, 2]) != JsonValue::from(vec![1u8]));
}

#[test]
fn objects_compare_whatever_the_order() {
    let mut first = Object::new();
    first.insert("a", JsonValue::from(1u8));
    first.insert("b", JsonValue::from(vec![Some(true), None]));
    let mut second = Object::new();
    second.insert("b", JsonValue::from(vec![Some(true), None]));
    second.insert("a", JsonValue::from(1u8));
    assert!(first == second);
    assert!(JsonValue::Object(first.clone()) == JsonValue::Object(second.clone()));
    assert!(JsonValue::Object(first.clone()) == second);
    assert!(second == JsonValue::Object(first.clone()));
    second.insert("a", JsonValue::from(2u8));
    assert!(first != second);
    assert!(JsonValue::Object(first) != JsonValue::Object(second));
}

#[test]
fn values_compare_with_plain_values() {
    assert!(JsonValue::from("abc") == "abc");
    assert!("abc" == JsonValue::from("abc"));
    assert!(JsonValue::String(String::from("abc")) == *"abc");
    assert!(*"abc" == JsonValue::String(String::from("abc")));
    assert!(JsonValue::from("abc") != "abd");
    assert!(JsonValue::Null != "null");
    assert!(JsonValue::String(String::from("abc")) == String::from("abc"));
    assert!(String::from("abc") == JsonValue::String(String::from("abc")));
    assert!(JsonValue::from("abc") != String::from("abc"));
    assert!(JsonValue::from(5u8) == 5u8);
    assert!(JsonValue::from(5u8) == 5i64);
    assert!(5usize == JsonValue::from(5u8));
    assert!(JsonValue::from(5u8) != 6u8);
    assert!(JsonValue::from(-5i8) != 5u8);
    assert!(JsonValue::from(-5i8) == -5isize);
    assert!(&JsonValue::from(5u8) == 5u32);
    assert!(JsonValue::from(5u8) == Number::from(5u16));
    assert!(Number::from(5u16) == JsonValue::from(5u8));
    assert!(JsonValue::Boolean(true) == true);
    assert!(false == JsonValue::Boolean(false));
    assert!(JsonValue::Boolean(true) != false);
    assert!(JsonValue::Null != false);
}

#[test]
fn clone_is_deep() {
    let mut object = Object::new();
    object.insert("list", JsonValue::from(vec![1u8, 2]));
    object.insert("text", JsonValue::from("a string that is longer than thirty bytes in all"));
    let value = JsonValue::Object(object);
    let copy = value.clone();
    assert!(copy == value);
    assert_eq!(copy.dump(), value.dump());
    assert_eq!(
        copy.dump(),
        "{\"list\":[1,2],\"text\":\"a string that is longer than thirty bytes in all\"}"
    );
}

#[test]
fn nesting_is_counted() {
    let flat = JsonValue::from(vec![1u8, 2]);
    assert!(JsonValue::Null.nests_within(0));
    assert!(JsonValue::Array(Vec::new()).nests_within(0));
    assert!(JsonValue::Object(Object::new()).nests_within(0));
    assert!(!flat.nests_within(0));
    assert!(flat.nests_within(1));
    let mut object = Object::new();
    object.insert("a", JsonValue::Null);
    object.insert("b", JsonValue::Array(vec![flat.clone(), JsonValue::Null]));
    let deep = JsonValue::Object(object);
    assert!(!deep.nests_within(2));
    assert!(deep.nests_within(3));
    assert!(deep.nests_within(u16::MAX));
    let hollow = JsonValue::Array(vec![JsonValue::Array(Vec::new())]);
    assert!(!hollow.nests_within(0));
    assert!(hollow.nests_within(1));
}

#[test]
fn slices_and_arrays_convert_into_arrays() {
    let slice: &[u8] = &[1, 2, 3];
    assert_eq!(JsonValue::from(slice).dump(), "[1,2,3]");
    let empty: &[bool] = &[];
    assert_eq!(JsonValue::from(empty).dump(), "[]");
    assert_eq!(JsonValue::from([true, false]).dump(), "[true,false]");
    assert_eq!(JsonValue::from(["a", "b", "c"]).dump(), "[\"a\",\"b\",\"c\"]");
    let none: [u8; 0] = [];
    assert_eq!(JsonValue::from(none).dump(), "[]");
}
