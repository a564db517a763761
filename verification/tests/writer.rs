use json::value::{JsonValue, Object};
use json::writer::{JsonWriter, ValueWriter};

#[test]
fn object_with_two_members() {
    let text = JsonWriter::new().object().key("a").value(1u8).key("b").value(2u8).close();
    assert_eq!(text, "{\"a\":1,\"b\":2}");
}

#[test]
fn nested_documents() {
    let text = JsonWriter::new()
        .object()
        .key("foo")
        .value("bar")
        .key("baz")
        .value("qux")
        .key("doge")
        .array()
        .value("to")
        .value("the")
        .value("moon")
        .close()
        .close();
    assert_eq!(text, "{\"foo\":\"bar\",\"baz\":\"qux\",\"doge\":[\"to\",\"the\",\"moon\"]}");
}

#[test]
fn empty_object_and_array() {
    assert_eq!(JsonWriter::new().object().close(), "{}");
    assert_eq!(JsonWriter::new().array().close(), "[]");
}

#[test]
fn scalar_at_the_top() {
    assert_eq!(JsonWriter::new().value(true), "true");
    assert_eq!(JsonWriter::new().value(()), "null");
    assert_eq!(JsonWriter::new().value("a\nb"), "\"a\\nb\"");
    assert_eq!(JsonWriter::new().value(-12i32), "-12");
}

#[test]
fn arrays_in_arrays() {
    let text = JsonWriter::new()
        .array()
        .array()
        .close()
        .array()
        .value(1u8)
        .array()
        .value(2u8)
        .value(3u8)
        .close()
        .close()
        .object()
        .close()
        .value(None::<bool>)
        .close();
    assert_eq!(text, "[[],[1,[2,3]],{},null]");
}

#[test]
fn objects_in_objects() {
    let text = JsonWriter::new()
        .object()
        .key("a")
        .object()
        .key("b")
        .object()
        .close()
        .key("c")
        .array()
        .close()
        .close()
        .key("d\"")
        .value(vec![1u8, 2])
        .close();
    assert_eq!(text, "{\"a\":{\"b\":{},\"c\":[]},\"d\\\"\":[1,2]}");
}

#[test]
fn value_trees_as_values() {
    let mut object = Object::new();
    object.insert("k", JsonValue::from(1u8));
    let text = JsonWriter::new()
        .array()
        .value(JsonValue::Object(object))
        .value(JsonValue::Array(vec![JsonValue::Null]))
        .close();
    assert_eq!(text, "[{\"k\":1},[null]]");
}
