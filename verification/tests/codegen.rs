use json::codegen::to_json::ToJson;
use json::codegen::{DumpGenerator, Generator, PrettyGenerator};
use json::number::Number;
use json::short::Short;
use json::value::{JsonValue, Object};

fn dump_of<T: ToJson<DumpGenerator>>(value: &T) -> String {
    let mut gen = DumpGenerator::new();
    value.generate(&mut gen).unwrap();
    gen.consume()
}

fn pretty_of<T: ToJson<PrettyGenerator>>(value: &T, spaces: u16) -> String {
    let mut gen = PrettyGenerator::new(spaces);
    value.generate(&mut gen).unwrap();
    gen.consume()
}

fn sample() -> JsonValue {
    let mut inner = Object::new();
    inner.insert("x", JsonValue::Null);
    let mut object = Object::new();
    object.insert("name", JsonValue::from("json"));
    object.insert("tags", JsonValue::Array(vec![JsonValue::from(1u8), JsonValue::from(-2i8)]));
    object.insert("nested", JsonValue::Object(inner));
    object.insert("empty_list", JsonValue::Array(Vec::new()));
    object.insert("empty_map", JsonValue::Object(Object::new()));
    object.insert("ok", JsonValue::Boolean(true));
    JsonValue::Object(object)
}

#[test]
fn scalars_are_written_as_literals() {
    assert_eq!(JsonValue::Null.dump(), "null");
    assert_eq!(JsonValue::Boolean(true).dump(), "true");
    assert_eq!(JsonValue::Boolean(false).dump(), "false");
    assert_eq!(JsonValue::from("hi").dump(), "\"hi\"");
    assert_eq!(JsonValue::String(String::from("hi")).dump(), "\"hi\"");
    assert_eq!(JsonValue::Short(Short::from_slice("hi")).dump(), "\"hi\"");
    assert_eq!(JsonValue::from(7u32).dump(), "7");
}

#[test]
fn numbers_are_written_in_decimal() {
    assert_eq!(JsonValue::from(0u8).dump(), "0");
    assert_eq!(JsonValue::from(9u8).dump(), "9");
    assert_eq!(JsonValue::from(10u8).dump(), "10");
    assert_eq!(JsonValue::from(255u8).dump(), "255");
    assert_eq!(JsonValue::from(-1i8).dump(), "-1");
    assert_eq!(JsonValue::from(-128i8).dump(), "-128");
    assert_eq!(JsonValue::from(1234567890u32).dump(), "1234567890");
    assert_eq!(JsonValue::from(u64::MAX).dump(), "18446744073709551615");
    assert_eq!(JsonValue::from(i64::MIN).dump(), "-9223372036854775808");
    assert_eq!(JsonValue::from(i64::MAX).dump(), "9223372036854775807");
    assert_eq!(JsonValue::from(usize::MIN).dump(), "0");
    assert_eq!(JsonValue::from(-32768i16).dump(), "-32768");
    assert_eq!(JsonValue::Number(Number::from_parts(false, 0)).dump(), "0");
    assert_eq!(JsonValue::Number(Number::from_parts(false, u64::MAX)).dump(), "-18446744073709551615");
}

#[test]
fn strings_are_escaped() {
    assert_eq!(JsonValue::from("a\"b").dump(), "\"a\\\"b\"");
    assert_eq!(JsonValue::from("a\\b").dump(), "\"a\\\\b\"");
    assert_eq!(JsonValue::from("\u{8}\u{c}\n\r\t").dump(), "\"\\b\\f\\n\\r\\t\"");
    assert_eq!(JsonValue::from("\u{0}\u{1f}\u{b}").dump(), "\"\\u0000\\u001f\\u000b\"");
    assert_eq!(JsonValue::from("\u{7f} /").dump(), "\"\u{7f} /\"");
    assert_eq!(JsonValue::from("héllo 鍵 🔑").dump(), "\"héllo 鍵 🔑\"");
    assert_eq!(JsonValue::from("").dump(), "\"\"");
}

#[test]
fn keys_are_escaped() {
    let mut object = Object::new();
    object.insert("a\"\n", JsonValue::Null);
    assert_eq!(JsonValue::Object(object).dump(), "{\"a\\\"\\n\":null}");
}

#[test]
fn compact_text_has_no_whitespace() {
    assert_eq!(
        sample().dump(),
        "{\"name\":\"json\",\"tags\":[1,-2],\"nested\":{\"x\":null},\"empty_list\":[],\"empty_map\":{},\"ok\":true}"
    );
}

#[test]
fn pretty_text_is_indented() {
    let expected = "{\n    \"name\": \"json\",\n    \"tags\": [\n        1,\n        -2\n    ],\n    \"nested\": {\n        \"x\": null\n    },\n    \"empty_list\": [],\n    \"empty_map\": {},\n    \"ok\": true\n}";
    assert_eq!(sample().pretty(4), expected);
}

#[test]
fn pretty_text_with_other_units() {
    let value = JsonValue::Array(vec![JsonValue::from(1u8), JsonValue::Array(vec![JsonValue::Null])]);
    assert_eq!(value.pretty(2), "[\n  1,\n  [\n    null\n  ]\n]");
    assert_eq!(value.pretty(0), "[\n1,\n[\nnull\n]\n]");
    assert_eq!(value.pretty(1), "[\n 1,\n [\n  null\n ]\n]");
}

#[test]
fn empty_containers_collapse() {
    assert_eq!(JsonValue::Array(Vec::new()).dump(), "[]");
    assert_eq!(JsonValue::Object(Object::new()).dump(), "{}");
    assert_eq!(JsonValue::Array(Vec::new()).pretty(4), "[]");
    assert_eq!(JsonValue::Object(Object::new()).pretty(4), "{}");
    let nested = JsonValue::Array(vec![JsonValue::Array(Vec::new()), JsonValue::Object(Object::new())]);
    assert_eq!(nested.pretty(2), "[\n  [],\n  {}\n]");
    assert_eq!(nested.dump(), "[[],{}]");
}

#[test]
fn pretty_text_without_whitespace_is_compact_text() {
    let value = sample();
    let stripped: String = value.pretty(3).chars().filter(|c| *c != ' ' && *c != '\n').collect();
    assert_eq!(stripped, value.dump());
}

#[test]
fn members_are_written_in_insertion_order() {
    let mut object = Object::new();
    object.insert("b", JsonValue::from(2u8));
    object.insert("a", JsonValue::from(1u8));
    object.insert("b", JsonValue::from(3u8));
    assert_eq!(JsonValue::Object(object).dump(), "{\"b\":3,\"a\":1}");
}

#[test]
fn plain_values_are_serializable() {
    assert_eq!(dump_of(&()), "null");
    assert_eq!(dump_of(&true), "true");
    assert_eq!(dump_of(&false), "false");
    assert_eq!(dump_of(&"text"), "\"text\"");
    assert_eq!(dump_of(&String::from("text")), "\"text\"");
    assert_eq!(dump_of(&17u8), "17");
    assert_eq!(dump_of(&-17i64), "-17");
    assert_eq!(dump_of(&65535u16), "65535");
    assert_eq!(dump_of(&-2147483648i32), "-2147483648");
    assert_eq!(dump_of(&4294967295u32), "4294967295");
    assert_eq!(dump_of(&0usize), "0");
    assert_eq!(dump_of(&-5isize), "-5");
    assert_eq!(dump_of(&Number::from(12u8)), "12");
    assert_eq!(dump_of(&Some(3u8)), "3");
    assert_eq!(dump_of(&None::<u8>), "null");
}

#[test]
fn sequences_are_serializable() {
    assert_eq!(dump_of(&vec![1u8, 2, 3]), "[1,2,3]");
    assert_eq!(dump_of(&Vec::<u8>::new()), "[]");
    assert_eq!(dump_of(&vec![Some("a"), None]), "[\"a\",null]");
    assert_eq!(dump_of(&vec![vec![1u8], vec![]]), "[[1],[]]");
    let slice: &[bool] = &[true, false];
    assert_eq!(dump_of(&slice), "[true,false]");
    assert_eq!(pretty_of(&vec![1u8, 2], 2), "[\n  1,\n  2\n]");
    assert_eq!(pretty_of(&vec![vec![1u8], vec![]], 1), "[\n [\n  1\n ],\n []\n]");
}

#[test]
fn objects_are_serializable() {
    let mut object = Object::new();
    assert_eq!(dump_of(&object), "{}");
    assert_eq!(pretty_of(&object, 2), "{}");
    object.insert("k", JsonValue::from("v"));
    object.insert("n", JsonValue::Null);
    assert_eq!(dump_of(&object), "{\"k\":\"v\",\"n\":null}");
    assert_eq!(pretty_of(&object, 2), "{\n  \"k\": \"v\",\n  \"n\": null\n}");
}

#[test]
fn dump_generator_primitives() {
    let mut gen = DumpGenerator::new();
    gen.write("raw \"text\"").unwrap();
    gen.write_char('[').unwrap();
    gen.indent();
    gen.new_line().unwrap();
    gen.write_str("a\"b").unwrap();
    gen.write_min(": ", ':').unwrap();
    gen.write_number(&Number::from(-40i8)).unwrap();
    gen.dedent();
    gen.new_line().unwrap();
    gen.write_char(']').unwrap();
    assert_eq!(gen.consume(), "raw \"text\"[\"a\\\"b\":-40]");
}

#[test]
fn pretty_generator_primitives() {
    let mut gen = PrettyGenerator::new(3);
    gen.write("raw").unwrap();
    gen.new_line().unwrap();
    gen.write_char('[').unwrap();
    gen.indent();
    gen.new_line().unwrap();
    gen.write_str("k").unwrap();
    gen.write_min(": ", ':').unwrap();
    gen.write_number(&Number::from(5u8)).unwrap();
    gen.indent();
    gen.new_line().unwrap();
    gen.dedent();
    gen.dedent();
    gen.new_line().unwrap();
    gen.write_char(']').unwrap();
    assert_eq!(gen.consume(), "raw\n[\n   \"k\": 5\n      \n]");
}
