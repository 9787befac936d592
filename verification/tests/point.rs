use qdrant_values::ordered_map::OrderedMap;
use qdrant_values::point::{Payload, PointStruct, RetrievedPoint, ScoredPoint, Vectors};
use qdrant_values::point_id::{HashInput, PointId, PointIdOptions};
use qdrant_values::value::{Kind, Value};
use std::collections::hash_map::DefaultHasher;
use std::hash::{Hash, Hasher};
use uuid::Uuid;

fn integer(i: i64) -> Value {
    Value { kind: Some(Kind::IntegerValue(i)) }
}

fn payload() -> OrderedMap<Value> {
    let mut m = OrderedMap::new();
    m.insert("age".to_string(), integer(30));
    m.insert("none".to_string(), Value { kind: None });
    m
}

fn fed(input: &HashInput<'_>) -> u64 {
    let mut state = DefaultHasher::new();
    match input {
        HashInput::Nothing => {}
        HashInput::Word(n) => state.write_u64(*n),
        HashInput::Text(s) => s.hash(&mut state),
    }
    state.finish()
}

fn num(n: u64) -> PointId {
    PointId { point_id_options: Some(PointIdOptions::Num(n)) }
}

fn uuid_id(s: &str) -> PointId {
    PointId { point_id_options: Some(PointIdOptions::Uuid(s.to_string())) }
}

#[test]
fn retrieved_point_get_gives_null_for_a_missing_key() {
    let point = RetrievedPoint::default();
    assert!(point.get("not_present").is_null());
    assert!(point.try_get("not_present").is_none());
}

#[test]
fn scored_point_get_gives_null_for_a_missing_key() {
    let point = ScoredPoint::default();
    assert!(point.get("not_present").is_null());
    assert!(point.try_get("not_present").is_none());
}

#[test]
fn retrieved_point_get_is_try_get_or_null() {
    let point = RetrievedPoint { id: Some(num(1)), payload: payload() };
    for key in ["age", "none", "missing", ""] {
        let got = point.get(key);
        match point.try_get(key) {
            Some(found) => assert!(std::ptr::eq(got, found)),
            None => assert!(got.is_null()),
        }
    }
    assert_eq!(point.get("age").as_integer(), Some(30));
    assert!(point.try_get("none").unwrap().kind.is_none());
    assert!(!point.get("none").is_null());
}

#[test]
fn scored_point_get_is_try_get_or_null() {
    let point = ScoredPoint { id: Some(num(1)), payload: payload(), version: 3 };
    for key in ["age", "none", "missing", ""] {
        let got = point.get(key);
        match point.try_get(key) {
            Some(found) => assert!(std::ptr::eq(got, found)),
            None => assert!(got.is_null()),
        }
    }
    assert_eq!(point.try_get("age").unwrap().as_integer(), Some(30));
}

#[test]
fn a_point_is_built_from_its_parts() {
    let point = PointStruct::new(
        num(5),
        Vectors { components: vec![1.0f32.to_bits(), 2.0f32.to_bits()] },
        Payload { fields: payload() },
    );
    assert!(matches!(point.id.unwrap().point_id_options, Some(PointIdOptions::Num(5))));
    assert_eq!(point.vectors.unwrap().components, vec![1.0f32.to_bits(), 2.0f32.to_bits()]);
    assert_eq!(point.payload.len(), 2);
    assert_eq!(point.payload.get("age").unwrap().as_integer(), Some(30));
}

#[test]
fn a_point_is_built_from_what_converts_to_its_parts() {
    let uuid = Uuid::from_u128(0x550e8400e29b41d4a716446655440000);
    let point =
        PointStruct::new(uuid, Vectors { components: vec![] }, Payload { fields: OrderedMap::new() });
    match point.id.unwrap().point_id_options {
        Some(PointIdOptions::Uuid(s)) => assert_eq!(s, "550e8400-e29b-41d4-a716-446655440000"),
        _ => panic!("the identifier is no uuid"),
    }
}

#[test]
fn an_identifier_from_a_uuid_holds_its_canonical_text() {
    let uuid = Uuid::parse_str("550E8400-E29B-41D4-A716-446655440000").unwrap();
    match PointId::from(uuid).point_id_options {
        Some(PointIdOptions::Uuid(s)) => assert_eq!(s, "550e8400-e29b-41d4-a716-446655440000"),
        _ => panic!("the identifier is no uuid"),
    }
    match PointIdOptions::from(uuid) {
        PointIdOptions::Uuid(s) => assert_eq!(s, "550e8400-e29b-41d4-a716-446655440000"),
        _ => panic!("the identifier is no uuid"),
    }
    match PointId::from_uuid(Uuid::from_u128(0)).point_id_options {
        Some(PointIdOptions::Uuid(s)) => assert_eq!(s, "00000000-0000-0000-0000-000000000000"),
        _ => panic!("the identifier is no uuid"),
    }
    match PointId::from_uuid(Uuid::from_u128(u128::MAX)).point_id_options {
        Some(PointIdOptions::Uuid(s)) => assert_eq!(s, "ffffffff-ffff-ffff-ffff-ffffffffffff"),
        _ => panic!("the identifier is no uuid"),
    }
    match PointId::from_uuid(Uuid::from_u128(0x0123456789abcdef0123456789abcdef)).point_id_options {
        Some(PointIdOptions::Uuid(s)) => assert_eq!(s, "01234567-89ab-cdef-0123-456789abcdef"),
        _ => panic!("the identifier is no uuid"),
    }
}

#[test]
fn an_identifier_from_a_number_holds_the_number() {
    assert!(matches!(PointId::from_num(7).point_id_options, Some(PointIdOptions::Num(7))));
}

#[test]
fn equal_identifiers_hash_identically() {
    assert_eq!(fed(&num(7).hash_input()), fed(&num(7).hash_input()));
    assert_eq!(fed(&uuid_id("a").hash_input()), fed(&uuid_id("a").hash_input()));
    assert_ne!(fed(&num(7).hash_input()), fed(&num(8).hash_input()));
    assert_ne!(fed(&uuid_id("a").hash_input()), fed(&uuid_id("b").hash_input()));
}

#[test]
fn a_number_hashes_as_its_word_and_a_uuid_as_its_string() {
    let mut word = DefaultHasher::new();
    word.write_u64(7);
    assert_eq!(fed(&num(7).hash_input()), word.finish());
    let mut string = DefaultHasher::new();
    "a".hash(&mut string);
    assert_eq!(fed(&uuid_id("a").hash_input()), string.finish());
    assert!(matches!(num(7).hash_input(), HashInput::Word(7)));
    assert!(matches!(uuid_id("a").hash_input(), HashInput::Text("a")));
}

#[test]
fn an_identifier_without_a_form_hashes_as_nothing() {
    let absent = PointId { point_id_options: None };
    assert!(matches!(absent.hash_input(), HashInput::Nothing));
    assert_eq!(fed(&absent.hash_input()), DefaultHasher::new().finish());
}

#[test]
fn an_identifier_from_a_uuid_value_holds_its_canonical_text() {
    match PointId::from_uuid_value(0xa1a2a3a4b1b2c1c2d1d2d3d4d5d6d7d8).point_id_options {
        Some(PointIdOptions::Uuid(s)) => assert_eq!(s, "a1a2a3a4-b1b2-c1c2-d1d2-d3d4d5d6d7d8"),
        _ => panic!("the identifier is no uuid"),
    }
    match PointId::from_uuid_value(1).point_id_options {
        Some(PointIdOptions::Uuid(s)) => assert_eq!(s, "00000000-0000-0000-0000-000000000001"),
        _ => panic!("the identifier is no uuid"),
    }
    let uuid = Uuid::from_u128(0x550e8400e29b41d4a716446655440000);
    let by_value = PointId::from_uuid_value(uuid.as_u128());
    match (PointId::from_uuid(uuid).point_id_options, by_value.point_id_options) {
        (Some(PointIdOptions::Uuid(a)), Some(PointIdOptions::Uuid(b))) => assert_eq!(a, b),
        _ => panic!("the identifier is no uuid"),
    }
}

#[test]
fn identifiers_are_equal_by_form_and_payload() {
    assert!(num(7) == num(7));
    assert!(num(7) != num(8));
    assert!(uuid_id("a") == uuid_id("a"));
    assert!(uuid_id("a") != uuid_id("b"));
    assert!(num(7) != uuid_id("7"));
    assert!(uuid_id("7") != num(7));
    let absent = PointId { point_id_options: None };
    assert!(absent == PointId { point_id_options: None });
    assert!(absent != num(0));
    assert!(PointIdOptions::Num(1) == PointIdOptions::Num(1));
    assert!(PointIdOptions::Num(1) != PointIdOptions::Uuid("1".to_string()));
}
