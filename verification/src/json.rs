//! The conversion of a value to a `serde_json::Value`.

use crate::ordered_map::distinct_keys;
use crate::value::{Kind, ValueView};
use serde_json::Value as JsonValue;
use vstd::prelude::*;

verus! {

#[verifier::external_type_specification]
#[verifier::external_body]
pub struct ExJsonValue(JsonValue);

/// What a `serde_json::Value` holds.
pub enum JsonView {
    Null,
    Bool(bool),
    /// A number that is an integer.
    Integer(int),
    /// A number that is a binary64, by its bit pattern.
    Double(u64),
    Text(Seq<char>),
    Array(Seq<JsonView>),
    /// The members of an object, in the order in which the object holds them.
    Object(Seq<(Seq<char>, JsonView)>),
}

/// What the JSON value `json` holds. The library learns it only from the
/// functions below that build JSON values.
pub uninterp spec fn json_view(json: JsonValue) -> JsonView;

/// `serde_json::Value::Null`. Trusted: it holds null.
#[verifier::external_body]
fn json_null() -> (r: JsonValue)
    ensures
        json_view(r) == JsonView::Null,
{
    JsonValue::Null
}

/// `serde_json::Value::Bool`. Trusted: the result holds the boolean.
#[verifier::external_body]
fn json_bool(b: bool) -> (r: JsonValue)
    ensures
        json_view(r) == JsonView::Bool(b),
{
    JsonValue::Bool(b)
}

/// `serde_json::Value::from` on an `i64`. Trusted: the result is a number
/// that holds exactly this integer.
#[verifier::external_body]
fn json_integer(i: i64) -> (r: JsonValue)
    ensures
        json_view(r) == JsonView::Integer(i as int),
{
    JsonValue::from(i)
}

/// `serde_json::Value::String`. Trusted: the result holds the string.
#[verifier::external_body]
fn json_text(s: String) -> (r: JsonValue)
    ensures
        json_view(r) == JsonView::Text(s@),
{
    JsonValue::String(s)
}

/// Collects JSON values into a `serde_json::Value` with its `FromIterator`.
/// Trusted: the result is an array that holds the items in their order.
#[verifier::external_body]
fn json_array(items: Vec<JsonValue>) -> (r: JsonValue)
    ensures
        json_view(r) == JsonView::Array(Seq::new(items@.len(), |i: int| json_view(items@[i]))),
{
    items.into_iter().collect()
}

/// Collects pairs of a key and a JSON value into a `serde_json::Value` with
/// its `FromIterator`. Trusted: where no key occurs twice, the result is an
/// object that holds the members in their order.
#[verifier::external_body]
fn json_object(members: Vec<(String, JsonValue)>) -> (r: JsonValue)
    requires
        forall|i: int, j: int|
            0 <= i < j < members@.len() ==> (#[trigger] members@[i]).0@ != (
            #[trigger] members@[j]).0@,
    ensures
        json_view(r) == JsonView::Object(
            Seq::new(members@.len(), |i: int| (members@[i].0@, json_view(members@[i].1))),
        ),
{
    members.into_iter().collect()
}

/// What the function `double` may return for a bit pattern, as a relation
/// between the bit pattern and what the returned JSON value holds.
pub open spec fn double_jsons<F: Fn(u64) -> JsonValue>(double: F) -> spec_fn(u64, JsonView) -> bool {
    |bits: u64, json: JsonView|
        exists|j: JsonValue| call_ensures(double, (bits,), j) && json_view(j) == json
}

/// Where `double` relates a bit pattern to the JSON value that `json` gives
/// for it and to no other, what a value converts to is its JSON value.
pub proof fn lemma_converts_to_json_of(
    value: ValueView,
    double: spec_fn(u64, JsonView) -> bool,
    json: spec_fn(u64) -> JsonView,
    converted: JsonView,
)
    requires
        forall|bits: u64, j: JsonView| #[trigger] double(bits, j) ==> j == json(bits),
        value.converts_to(double, converted),
    ensures
        converted == value.json_of(json),
    decreases value,
{
    match value {
        ValueView::List(items) => {
            let converted_items = converted->Array_0;
            let jsons = ValueView::jsons_of(items, json);
            assert forall|i: int| 0 <= i < items.len() implies converted_items[i] == jsons[i] by {
                assert(items[i].converts_to(double, converted_items[i]));
                lemma_converts_to_json_of(items[i], double, json, converted_items[i]);
            }
            assert(converted_items =~= jsons);
        },
        ValueView::Struct(fields) => {
            let members = converted->Object_0;
            let jsons = ValueView::members_of(fields, json);
            assert forall|i: int| 0 <= i < members.len() implies members[i] == jsons[i] by {
                assert(fields[i].1.converts_to(double, members[i].1));
                lemma_converts_to_json_of(fields[i].1, double, json, members[i].1);
            }
            assert(members =~= jsons);
        },
        _ => {},
    }
}

/// Null and a value without a kind convert to JSON null, an empty list to an
/// empty array and an empty struct to an empty object.
pub proof fn lemma_converts_to_empty(
    value: ValueView,
    double: spec_fn(u64, JsonView) -> bool,
    json: JsonView,
)
    requires
        value.converts_to(double, json),
    ensures
        value is Absent || value is Null ==> json == JsonView::Null,
        value is List && value.items().len() == 0 ==> json == JsonView::Array(Seq::empty()),
        value is Struct && value.fields().len() == 0 ==> json == JsonView::Object(Seq::empty()),
{
    if value is List && value.items().len() == 0 {
        assert(json->Array_0 =~= Seq::empty());
    }
    if value is Struct && value.fields().len() == 0 {
        assert(json->Object_0 =~= Seq::empty());
    }
}

impl ValueView {
    /// Whether `json` is what this value converts to, where `double` relates
    /// the bit pattern of a double to its JSON value.
    ///
    /// A boolean, an integer and a string convert to the JSON value that holds
    /// the same; a list to an array of its converted items in order; a struct
    /// to an object of its converted fields in order; null and a value without
    /// a kind to JSON null.
    pub open spec fn converts_to(
        self,
        double: spec_fn(u64, JsonView) -> bool,
        json: JsonView,
    ) -> bool
        decreases self,
    {
        match self {
            ValueView::Bool(b) => json == JsonView::Bool(b),
            ValueView::Integer(i) => json == JsonView::Integer(i as int),
            ValueView::Double(bits) => double(bits, json),
            ValueView::Text(s) => json == JsonView::Text(s),
            ValueView::List(items) => {
                &&& json matches JsonView::Array(converted)
                &&& converted.len() == items.len()
                &&& forall|i: int|
                    0 <= i < items.len() ==> (#[trigger] items[i]).converts_to(double, converted[i])
            },
            ValueView::Struct(fields) => {
                &&& json matches JsonView::Object(members)
                &&& members.len() == fields.len()
                &&& forall|i: int|
                    0 <= i < fields.len() ==> {
                        &&& members[i].0 == (#[trigger] fields[i]).0
                        &&& fields[i].1.converts_to(double, members[i].1)
                    }
            },
            ValueView::Null(_) | ValueView::Absent => json == JsonView::Null,
        }
    }

    /// What the value converts to, where `double` gives what the JSON value of
    /// a double holds from its bit pattern.
    pub open spec fn json_of(self, double: spec_fn(u64) -> JsonView) -> JsonView
        decreases self,
    {
        match self {
            ValueView::Bool(b) => JsonView::Bool(b),
            ValueView::Integer(i) => JsonView::Integer(i as int),
            ValueView::Double(bits) => double(bits),
            ValueView::Text(s) => JsonView::Text(s),
            ValueView::List(items) => JsonView::Array(Self::jsons_of(items, double)),
            ValueView::Struct(fields) => JsonView::Object(Self::members_of(fields, double)),
            ValueView::Null(_) | ValueView::Absent => JsonView::Null,
        }
    }

    /// What `items` convert to, in order.
    pub open spec fn jsons_of(items: Seq<ValueView>, double: spec_fn(u64) -> JsonView) -> Seq<
        JsonView,
    >
        decreases items,
    {
        Seq::new(
            items.len(),
            |i: int|
                if 0 <= i < items.len() {
                    items[i].json_of(double)
                } else {
                    JsonView::Null
                },
        )
    }

    /// The keys of `fields` with what their values convert to, in order.
    pub open spec fn members_of(
        fields: Seq<(Seq<char>, ValueView)>,
        double: spec_fn(u64) -> JsonView,
    ) -> Seq<(Seq<char>, JsonView)>
        decreases fields,
    {
        Seq::new(
            fields.len(),
            |i: int|
                if 0 <= i < fields.len() {
                    (fields[i].0, fields[i].1.json_of(double))
                } else {
                    (Seq::empty(), JsonView::Null)
                },
        )
    }
}

impl crate::value::Value {
    /// Converts the value to a `serde_json::Value`; `double` is asked for the
    /// JSON value of each double, given its bit pattern.
    pub fn into_json<F: Fn(u64) -> JsonValue>(self, double: &F) -> (r: JsonValue)
        requires
            forall|bits: u64| call_requires(*double, (bits,)),
        ensures
            self@.converts_to(double_jsons(*double), json_view(r)),
        decreases self,
    {
        match self.kind {
            Some(Kind::BoolValue(b)) => json_bool(b),
            Some(Kind::IntegerValue(i)) => json_integer(i),
            Some(Kind::DoubleValue(bits)) => double(bits),
            Some(Kind::StringValue(s)) => json_text(s),
            Some(Kind::ListValue(l)) => {
                let ghost values = l.values@;
                let mut items: Vec<JsonValue> = Vec::new();
                for v in it: l.values
                    invariant
                        it.seq() == values,
                        forall|bits: u64| call_requires(*double, (bits,)),
                        self.kind == Some(Kind::ListValue(l)),
                        items@.len() == it.index(),
                        forall|k: int|
                            0 <= k < it.index() ==> (#[trigger] values[k])@.converts_to(
                                double_jsons(*double),
                                json_view(items@[k]),
                            ),
                {
                    proof {
                        assert(decreases_to!(l.values => l.values[it.index()]));
                        assert(decreases_to!(self.kind => self.kind->Some_0));
                        assert(decreases_to!(self.kind->Some_0 => self.kind->Some_0->ListValue_0));
                    }
                    let item = v.into_json(double);
                    items.push(item);
                }
                let r = json_array(items);
                proof {
                    let converted = json_view(r)->Array_0;
                    assert forall|k: int| 0 <= k < values.len() implies (#[trigger] self@.items()[k]).converts_to(
                        double_jsons(*double),
                        converted[k],
                    ) by {
                        assert(values[k]@.converts_to(double_jsons(*double), json_view(items@[k])));
                    }
                }
                r
            },
            Some(Kind::StructValue(s)) => {
                let ghost fields = s.fields.entries();
                let entries = s.fields.into_entries();
                let ghost moved = entries@;
                let mut members: Vec<(String, JsonValue)> = Vec::new();
                for e in it: entries
                    invariant
                        it.seq() == moved,
                        moved.len() == fields.len(),
                        forall|k: int|
                            0 <= k < moved.len() ==> (#[trigger] moved[k]).0@ == fields[k].0
                                && moved[k].1 == fields[k].1,
                        distinct_keys(fields),
                        forall|bits: u64| call_requires(*double, (bits,)),
                        self.kind == Some(Kind::StructValue(s)),
                        fields == s.fields.entries(),
                        members@.len() == it.index(),
                        forall|k: int|
                            0 <= k < it.index() ==> (#[trigger] members@[k]).0@ == fields[k].0
                                && fields[k].1@.converts_to(
                                double_jsons(*double),
                                json_view(members@[k].1),
                            ),
                {
                    proof {
                        s.fields.lemma_value_smaller(it.index());
                        assert(decreases_to!(self.kind => self.kind->Some_0));
                        assert(decreases_to!(self.kind->Some_0 => self.kind->Some_0->StructValue_0));
                    }
                    let member = e.1.into_json(double);
                    members.push((e.0, member));
                }
                proof {
                    assert forall|i: int, j: int| 0 <= i < j < members@.len() implies (
                    #[trigger] members@[i]).0@ != (#[trigger] members@[j]).0@ by {
                        assert(fields[i].0 != fields[j].0);
                    }
                }
                let r = json_object(members);
                proof {
                    let converted = json_view(r)->Object_0;
                    let view = self@.fields();
                    assert forall|k: int| 0 <= k < view.len() implies converted[k].0 == (
                    #[trigger] view[k]).0 && view[k].1.converts_to(
                        double_jsons(*double),
                        converted[k].1,
                    ) by {
                        assert(members@[k].0@ == fields[k].0);
                    }
                }
                r
            },
            _ => json_null(),
        }
    }
}

} // verus!
