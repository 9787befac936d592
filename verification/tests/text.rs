use qdrant_values::ordered_map::OrderedMap;
use qdrant_values::text::{boolean_text, integer_text, natural_text};
use qdrant_values::value::{Kind, ListValue, Struct, Value};

fn double_text(bits: u64) -> String {
    f64::from_bits(bits).to_string()
}

fn value(kind: Kind) -> Value {
    Value { kind: Some(kind) }
}

fn integer(i: i64) -> Value {
    value(Kind::IntegerValue(i))
}

fn text(s: &str) -> Value {
    value(Kind::StringValue(s.to_string()))
}

fn double(x: f64) -> Value {
    value(Kind::DoubleValue(x.to_bits()))
}

fn list(values: Vec<Value>) -> Value {
    value(Kind::ListValue(ListValue { values }))
}

fn structure(fields: Vec<(&str, Value)>) -> Value {
    let mut map = OrderedMap::new();
    for (k, v) in fields {
        map.insert(k.to_string(), v);
    }
    value(Kind::StructValue(Struct { fields: map }))
}

fn shown(v: &Value) -> String {
    v.to_text(&double_text)
}

#[test]
fn a_struct_renders_its_fields_in_stored_order() {
    let v = structure(vec![("text", text("Hi")), ("int", integer(42))]);
    assert_eq!(shown(&v), "{\"text\":\"Hi\",\"int\":42}");
}

#[test]
fn a_list_renders_between_brackets() {
    assert_eq!(shown(&list(vec![integer(1), integer(2)])), "[1,2]");
    assert_eq!(shown(&list(vec![integer(1)])), "[1]");
}

#[test]
fn empty_containers_render_without_content() {
    assert_eq!(shown(&list(vec![])), "[]");
    assert_eq!(shown(&structure(vec![])), "{}");
}

#[test]
fn null_and_a_missing_kind_render_as_null() {
    assert_eq!(shown(&value(Kind::NullValue(0))), "null");
    assert_eq!(shown(&value(Kind::NullValue(7))), "null");
    assert_eq!(shown(&Value { kind: None }), "null");
}

#[test]
fn scalars_render_as_their_literals() {
    assert_eq!(shown(&value(Kind::BoolValue(true))), "true");
    assert_eq!(shown(&value(Kind::BoolValue(false))), "false");
    assert_eq!(shown(&integer(0)), "0");
    assert_eq!(shown(&integer(-15)), "-15");
    assert_eq!(shown(&double(1.5)), "1.5");
    assert_eq!(shown(&double(-0.25)), "-0.25");
    assert_eq!(shown(&double(3.0)), "3");
}

#[test]
fn strings_render_quoted_and_escaped() {
    assert_eq!(shown(&text("Hi")), "\"Hi\"");
    assert_eq!(shown(&text("")), "\"\"");
    assert_eq!(shown(&text("a\"b")), "\"a\\\"b\"");
    assert_eq!(shown(&text("line\nbreak")), "\"line\\nbreak\"");
    assert_eq!(shown(&text("back\\slash")), "\"back\\\\slash\"");
}

#[test]
fn keys_render_quoted_and_escaped() {
    let v = structure(vec![("a\"b", integer(1))]);
    assert_eq!(shown(&v), "{\"a\\\"b\":1}");
}

#[test]
fn nested_values_render_recursively() {
    let v = structure(vec![
        ("list", list(vec![integer(1), list(vec![]), text("x"), value(Kind::NullValue(0))])),
        ("inner", structure(vec![("flag", value(Kind::BoolValue(false))), ("d", double(0.5))])),
    ]);
    assert_eq!(shown(&v), "{\"list\":[1,[],\"x\",null],\"inner\":{\"flag\":false,\"d\":0.5}}");
}

#[test]
fn the_double_renderer_is_asked_with_the_bit_pattern() {
    let v = list(vec![double(2.5), integer(1), double(-1.0)]);
    let tagged = v.to_text(&|bits: u64| format!("<{}>", bits));
    let expected = format!("[<{}>,1,<{}>]", 2.5f64.to_bits(), (-1.0f64).to_bits());
    assert_eq!(tagged, expected);
}

#[test]
fn integers_render_in_decimal() {
    assert_eq!(integer_text(0), "0");
    assert_eq!(integer_text(7), "7");
    assert_eq!(integer_text(10), "10");
    assert_eq!(integer_text(-1), "-1");
    assert_eq!(integer_text(1234567890), "1234567890");
    assert_eq!(integer_text(i64::MAX), "9223372036854775807");
    assert_eq!(integer_text(i64::MIN), "-9223372036854775808");
    assert_eq!(integer_text(i64::MIN + 1), "-9223372036854775807");
}

#[test]
fn integers_render_as_std_renders_them() {
    for i in [0i64, 1, -1, 9, 10, 11, 99, 100, 101, -100, 4096, -65535, i64::MAX, i64::MIN] {
        assert_eq!(integer_text(i), i.to_string());
    }
}

#[test]
fn naturals_render_in_decimal() {
    assert_eq!(natural_text(0), "0");
    assert_eq!(natural_text(9), "9");
    assert_eq!(natural_text(10), "10");
    assert_eq!(natural_text(u64::MAX), "18446744073709551615");
}

#[test]
fn booleans_render_as_words() {
    assert_eq!(boolean_text(true), "true");
    assert_eq!(boolean_text(false), "false");
}
