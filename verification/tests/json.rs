use qdrant_values::ordered_map::OrderedMap;
use qdrant_values::value::{Kind, ListValue, Struct, Value};
use serde_json::{Number, Value as Json};

fn double_json(bits: u64) -> Json {
    Json::from(f64::from_bits(bits))
}

fn value(kind: Kind) -> Value {
    Value { kind: Some(kind) }
}

fn integer(i: i64) -> Value {
    value(Kind::IntegerValue(i))
}

fn text(s: &str) -> Value {
    value(Kind::StringValue(s.to_string()))
}

fn double(x: f64) -> Value {
    value(Kind::DoubleValue(x.to_bits()))
}

fn list(values: Vec<Value>) -> Value {
    value(Kind::ListValue(ListValue { values }))
}

fn structure(fields: Vec<(&str, Value)>) -> Value {
    let mut map = OrderedMap::new();
    for (k, v) in fields {
        map.insert(k.to_string(), v);
    }
    value(Kind::StructValue(Struct { fields: map }))
}

fn object(members: Vec<(&str, Json)>) -> Json {
    let mut map = serde_json::Map::new();
    for (k, v) in members {
        map.insert(k.to_string(), v);
    }
    Json::Object(map)
}

fn converted(v: Value) -> Json {
    v.into_json(&double_json)
}

#[test]
fn a_struct_converts_to_an_object() {
    let v = structure(vec![("text", text("Hi Qdrant!")), ("int", integer(42))]);
    let expected =
        object(vec![("text", Json::String("Hi Qdrant!".to_string())), ("int", Json::from(42i64))]);
    assert_eq!(converted(v), expected);
}

#[test]
fn null_and_a_missing_kind_convert_to_null() {
    assert_eq!(converted(value(Kind::NullValue(0))), Json::Null);
    assert_eq!(converted(Value { kind: None }), Json::Null);
}

#[test]
fn empty_containers_convert_to_empty_containers() {
    assert_eq!(converted(list(vec![])), Json::Array(vec![]));
    assert_eq!(converted(structure(vec![])), Json::Object(serde_json::Map::new()));
}

#[test]
fn scalars_convert_to_the_same_scalars() {
    assert_eq!(converted(value(Kind::BoolValue(true))), Json::Bool(true));
    assert_eq!(converted(value(Kind::BoolValue(false))), Json::Bool(false));
    assert_eq!(converted(text("abc")), Json::String("abc".to_string()));
    assert_eq!(converted(text("")), Json::String(String::new()));
}

#[test]
fn integers_convert_exactly() {
    assert_eq!(converted(integer(0)), Json::Number(Number::from(0i64)));
    assert_eq!(converted(integer(-1)), Json::Number(Number::from(-1i64)));
    assert_eq!(converted(integer(i64::MAX)).as_i64(), Some(i64::MAX));
    assert_eq!(converted(integer(i64::MIN)).as_i64(), Some(i64::MIN));
    assert!(converted(integer(5)).is_i64() || converted(integer(5)).is_u64());
    assert!(!converted(integer(5)).is_f64());
}

#[test]
fn doubles_convert_through_the_given_function() {
    assert_eq!(converted(double(1.5)), Json::from(1.5f64));
    assert_eq!(converted(double(1.5)).as_f64(), Some(1.5));
    assert_eq!(converted(double(f64::NAN)), Json::Null);
    assert_eq!(converted(double(f64::INFINITY)), Json::Null);
    let v = list(vec![double(2.0), integer(3)]);
    let tagged = v.into_json(&|bits: u64| Json::String(format!("{:016x}", bits)));
    let expected =
        Json::Array(vec![Json::String(format!("{:016x}", 2.0f64.to_bits())), Json::from(3i64)]);
    assert_eq!(tagged, expected);
}

#[test]
fn a_list_converts_item_by_item_in_order() {
    let v = list(vec![integer(3), text("x"), value(Kind::NullValue(0)), list(vec![integer(1)])]);
    let expected = Json::Array(vec![
        Json::from(3i64),
        Json::String("x".to_string()),
        Json::Null,
        Json::Array(vec![Json::from(1i64)]),
    ]);
    assert_eq!(converted(v), expected);
}

#[test]
fn an_object_keeps_the_order_of_the_fields() {
    let v = structure(vec![("zeta", integer(1)), ("alpha", integer(2)), ("mid", integer(3))]);
    let json = converted(v);
    let keys: Vec<&str> = json.as_object().unwrap().keys().map(|k| k.as_str()).collect();
    assert_eq!(keys, vec!["zeta", "alpha", "mid"]);
    assert_eq!(json.to_string(), "{\"zeta\":1,\"alpha\":2,\"mid\":3}");
}

#[test]
fn nested_values_convert_recursively() {
    let v = structure(vec![
        ("items", list(vec![structure(vec![("a", integer(1))]), structure(vec![])])),
        ("inner", structure(vec![("flag", value(Kind::BoolValue(true))), ("d", double(0.5))])),
    ]);
    let expected = object(vec![
        ("items", Json::Array(vec![object(vec![("a", Json::from(1i64))]), object(vec![])])),
        ("inner", object(vec![("flag", Json::Bool(true)), ("d", Json::from(0.5f64))])),
    ]);
    assert_eq!(converted(v), expected);
}
