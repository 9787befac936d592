//! The structured value: a tagged union of null, bool, integer, double, string,
//! list and struct, with variant checks and variant-checked accessors.

use crate::error::NotA;
use crate::ordered_map::{
    distinct_keys, index_of, keys_of, lemma_index_of, lookup, OrderedMap,
};
use vstd::prelude::*;

verus! {

/// The variants of a [`Value`].
#[derive(Debug)]
pub enum Kind {
    /// Null. The payload carries no information.
    NullValue(i32),
    /// A double, held as its IEEE-754 binary64 bit pattern.
    DoubleValue(u64),
    /// A signed 64-bit integer.
    IntegerValue(i64),
    /// A string.
    StringValue(String),
    /// A boolean.
    BoolValue(bool),
    /// A mapping from field names to values.
    StructValue(Struct),
    /// A sequence of values.
    ListValue(ListValue),
}

/// A self-describing value. A value without a kind stands for null in every
/// conversion.
#[derive(Debug)]
pub struct Value {
    pub kind: Option<Kind>,
}

/// The fields of a struct value, in the order in which they were first stored.
#[derive(Debug, PartialEq)]
pub struct Struct {
    pub fields: OrderedMap<Value>,
}

/// The items of a list value.
#[derive(Debug, PartialEq)]
pub struct ListValue {
    pub values: Vec<Value>,
}

/// A value as a mathematical term.
pub enum ValueView {
    /// A value without a kind.
    Absent,
    Null(i32),
    /// A double, as its IEEE-754 binary64 bit pattern.
    Double(u64),
    Integer(i64),
    Text(Seq<char>),
    Bool(bool),
    /// The fields of a struct, in stored order.
    Struct(Seq<(Seq<char>, ValueView)>),
    List(Seq<ValueView>),
}

/// The term that `value` stands for.
pub open spec fn value_view(value: Value) -> ValueView
    decreases value,
{
    match value.kind {
        None => ValueView::Absent,
        Some(Kind::NullValue(n)) => ValueView::Null(n),
        Some(Kind::DoubleValue(bits)) => ValueView::Double(bits),
        Some(Kind::IntegerValue(i)) => ValueView::Integer(i),
        Some(Kind::StringValue(s)) => ValueView::Text(s@),
        Some(Kind::BoolValue(b)) => ValueView::Bool(b),
        Some(Kind::StructValue(s)) => ValueView::Struct(fields_view(s.fields)),
        Some(Kind::ListValue(l)) => ValueView::List(values_view(l.values@)),
    }
}

/// The terms that `values` stand for, in order.
pub open spec fn values_view(values: Seq<Value>) -> Seq<ValueView>
    decreases values,
{
    Seq::new(
        values.len(),
        |i: int|
            if 0 <= i < values.len() {
                value_view(values[i])
            } else {
                ValueView::Absent
            },
    )
}

/// The keys of `fields` with the terms that their values stand for, in order.
pub open spec fn fields_view(fields: OrderedMap<Value>) -> Seq<(Seq<char>, ValueView)>
    decreases fields,
{
    Seq::new(
        fields.entries().len(),
        |i: int|
            if 0 <= i < fields.entries().len() {
                proof {
                    fields.lemma_value_smaller(i);
                }
                (fields.entries()[i].0, value_view(fields.entries()[i].1))
            } else {
                (Seq::empty(), ValueView::Absent)
            },
    )
}

/// The term of the value that a lookup found.
pub open spec fn found_view(found: Option<&Value>) -> Option<ValueView> {
    match found {
        Some(v) => Some(v@),
        None => None,
    }
}

/// The term that a lookup found, or the explicit null where it found none.
pub open spec fn or_null(found: Option<ValueView>) -> ValueView {
    match found {
        Some(v) => v,
        None => ValueView::null(),
    }
}

/// Looking a key up among the terms of the fields finds the term of what
/// looking it up among the fields finds.
pub proof fn lemma_fields_view_lookup(fields: OrderedMap<Value>, key: Seq<char>)
    requires
        fields.wf(),
    ensures
        keys_of(fields_view(fields)) == fields.keys(),
        distinct_keys(fields_view(fields)),
        lookup(fields_view(fields), key) == match lookup(fields.entries(), key) {
            Some(v) => Some(v@),
            None => None,
        },
{
    let entries = fields.entries();
    let views = fields_view(fields);
    assert(keys_of(views) =~= fields.keys());
    assert(distinct_keys(views)) by {
        assert forall|i: int, j: int| 0 <= i < j < views.len() implies (#[trigger] views[i]).0 != (
        #[trigger] views[j]).0 by {
            assert(entries[i].0 != entries[j].0);
        }
    }
    match index_of(entries, key) {
        Some(i) => {
            assert(views[i].0 == key);
            lemma_index_of(views, i);
        },
        None => {
            if index_of(views, key) is Some {
                let i = index_of(views, key).unwrap();
                assert(views[i].0 == key);
                assert(entries[i].0 == key);
            }
        },
    }
}

impl View for Value {
    type V = ValueView;

    open spec fn view(&self) -> ValueView {
        value_view(*self)
    }
}

impl View for ListValue {
    type V = Seq<ValueView>;

    open spec fn view(&self) -> Seq<ValueView> {
        values_view(self.values@)
    }
}

impl View for Struct {
    type V = Seq<(Seq<char>, ValueView)>;

    open spec fn view(&self) -> Seq<(Seq<char>, ValueView)> {
        fields_view(self.fields)
    }
}

impl ValueView {
    /// The explicit null.
    pub open spec fn null() -> ValueView {
        ValueView::Null(0)
    }

    /// The items of a list; empty for every other value.
    pub open spec fn items(self) -> Seq<ValueView> {
        match self {
            ValueView::List(items) => items,
            _ => Seq::empty(),
        }
    }

    /// The fields of a struct in order; empty for every other value.
    pub open spec fn fields(self) -> Seq<(Seq<char>, ValueView)> {
        match self {
            ValueView::Struct(fields) => fields,
            _ => Seq::empty(),
        }
    }
}

impl Value {
    /// Whether the value is tagged null.
    pub open spec fn spec_is_null(&self) -> bool {
        self@ is Null
    }

    /// Whether the value is a boolean.
    pub open spec fn spec_is_bool(&self) -> bool {
        self@ is Bool
    }

    /// Whether the value is an integer.
    pub open spec fn spec_is_integer(&self) -> bool {
        self@ is Integer
    }

    /// Whether the value is a double.
    pub open spec fn spec_is_double(&self) -> bool {
        self@ is Double
    }

    /// Whether the value is a string.
    pub open spec fn spec_is_str(&self) -> bool {
        self@ is Text
    }

    /// Whether the value is a list.
    pub open spec fn spec_is_list(&self) -> bool {
        self@ is List
    }

    /// Whether the value is a struct.
    pub open spec fn spec_is_struct(&self) -> bool {
        self@ is Struct
    }

    /// A reference to the explicit null value, for lookups that find nothing.
    pub fn null_ref() -> (r: &'static Value)
        ensures
            r@ == ValueView::null(),
    {
        &Value { kind: Some(Kind::NullValue(0)) }
    }

    /// Whether the value is tagged null. A value without a kind has no tag.
    #[verifier::when_used_as_spec(spec_is_null)]
    pub fn is_null(&self) -> (r: bool)
        ensures
            r == (self@ is Null),
    {
        match &self.kind {
            Some(Kind::NullValue(_)) => true,
            _ => false,
        }
    }

    /// Whether the value is a boolean.
    #[verifier::when_used_as_spec(spec_is_bool)]
    pub fn is_bool(&self) -> (r: bool)
        ensures
            r == (self@ is Bool),
    {
        match &self.kind {
            Some(Kind::BoolValue(_)) => true,
            _ => false,
        }
    }

    /// The boolean, if the value is one.
    pub fn as_bool(&self) -> (r: Option<bool>)
        ensures
            r is Some <==> self.is_bool(),
            r == match self@ {
                ValueView::Bool(b) => Some(b),
                _ => None,
            },
    {
        match &self.kind {
            Some(Kind::BoolValue(b)) => Some(*b),
            _ => None,
        }
    }

    /// Whether the value is an integer.
    #[verifier::when_used_as_spec(spec_is_integer)]
    pub fn is_integer(&self) -> (r: bool)
        ensures
            r == (self@ is Integer),
    {
        match &self.kind {
            Some(Kind::IntegerValue(_)) => true,
            _ => false,
        }
    }

    /// The integer, if the value is one.
    pub fn as_integer(&self) -> (r: Option<i64>)
        ensures
            r is Some <==> self.is_integer(),
            r == match self@ {
                ValueView::Integer(i) => Some(i),
                _ => None,
            },
    {
        match &self.kind {
            Some(Kind::IntegerValue(i)) => Some(*i),
            _ => None,
        }
    }

    /// Whether the value is a double.
    #[verifier::when_used_as_spec(spec_is_double)]
    pub fn is_double(&self) -> (r: bool)
        ensures
            r == (self@ is Double),
    {
        match &self.kind {
            Some(Kind::DoubleValue(_)) => true,
            _ => false,
        }
    }

    /// The bit pattern of the double, if the value is one.
    pub fn as_double(&self) -> (r: Option<u64>)
        ensures
            r is Some <==> self.is_double(),
            r == match self@ {
                ValueView::Double(bits) => Some(bits),
                _ => None,
            },
    {
        match &self.kind {
            Some(Kind::DoubleValue(bits)) => Some(*bits),
            _ => None,
        }
    }

    /// Whether the value is a string.
    #[verifier::when_used_as_spec(spec_is_str)]
    pub fn is_str(&self) -> (r: bool)
        ensures
            r == (self@ is Text),
    {
        match &self.kind {
            Some(Kind::StringValue(_)) => true,
            _ => false,
        }
    }

    /// The string, if the value is one.
    pub fn as_str(&self) -> (r: Option<&String>)
        ensures
            r is Some <==> self.is_str(),
            r matches Some(s) ==> self@ == ValueView::Text(s@),
    {
        match &self.kind {
            Some(Kind::StringValue(s)) => Some(s),
            _ => None,
        }
    }

    /// Whether the value is a list.
    #[verifier::when_used_as_spec(spec_is_list)]
    pub fn is_list(&self) -> (r: bool)
        ensures
            r == (self@ is List),
    {
        match &self.kind {
            Some(Kind::ListValue(_)) => true,
            _ => false,
        }
    }

    /// The items of the list, if the value is one.
    pub fn as_list(&self) -> (r: Option<&[Value]>)
        ensures
            r is Some <==> self.is_list(),
            r matches Some(items) ==> self@ == ValueView::List(values_view(items@)),
    {
        match &self.kind {
            Some(Kind::ListValue(l)) => Some(l.values.as_slice()),
            _ => None,
        }
    }

    /// Whether the value is a struct.
    #[verifier::when_used_as_spec(spec_is_struct)]
    pub fn is_struct(&self) -> (r: bool)
        ensures
            r == (self@ is Struct),
    {
        match &self.kind {
            Some(Kind::StructValue(_)) => true,
            _ => false,
        }
    }

    /// The struct, if the value is one.
    pub fn as_struct(&self) -> (r: Option<&Struct>)
        ensures
            r is Some <==> self.is_struct(),
            r matches Some(s) ==> self@ == ValueView::Struct(s@),
    {
        match &self.kind {
            Some(Kind::StructValue(s)) => Some(s),
            _ => None,
        }
    }

    /// The value of the field `key`: `Some` exactly when this is a struct that
    /// holds the key. The lookup is one level deep.
    pub fn get_value(&self, key: &str) -> (r: Option<&Value>)
        ensures
            found_view(r) == lookup(self@.fields(), key@),
            r is Some ==> self.is_struct(),
    {
        match &self.kind {
            Some(Kind::StructValue(s)) => {
                proof {
                    use_type_invariant(&s.fields);
                    lemma_fields_view_lookup(s.fields, key@);
                }
                s.fields.get(key)
            },
            _ => {
                assert(index_of(self@.fields(), key@) is None);
                None
            },
        }
    }

    /// The value of the field `key` of a struct, null where the struct lacks
    /// the key, and an error where this is no struct.
    pub fn get_struct(&self, key: &str) -> (r: Result<&Value, NotA<Struct>>)
        ensures
            r is Ok <==> self.is_struct(),
            r matches Ok(v) ==> v@ == or_null(lookup(self@.fields(), key@)),
    {
        match &self.kind {
            Some(Kind::StructValue(s)) => {
                proof {
                    use_type_invariant(&s.fields);
                    lemma_fields_view_lookup(s.fields, key@);
                }
                match s.fields.get(key) {
                    Some(v) => Ok(v),
                    None => Ok(Value::null_ref()),
                }
            },
            _ => Err(NotA::new()),
        }
    }

    /// An iterator over the items of a list: `Some` exactly when the value is
    /// a list.
    pub fn try_list_iter(&self) -> (r: Option<std::slice::Iter<'_, Value>>)
        ensures
            r is Some <==> self.is_list(),
            r matches Some(it) ==> self@ == ValueView::List(
                values_view(vstd::std_specs::slice::into_iter_elts(it)),
            ),
    {
        match &self.kind {
            Some(Kind::ListValue(l)) => Some(l.iter()),
            _ => None,
        }
    }

    /// An iterator over the items of a list, and an error where the value is
    /// no list.
    pub fn iter_list(&self) -> (r: Result<std::slice::Iter<'_, Value>, NotA<ListValue>>)
        ensures
            r is Ok <==> self.is_list(),
            r matches Ok(it) ==> self@ == ValueView::List(
                values_view(vstd::std_specs::slice::into_iter_elts(it)),
            ),
    {
        match &self.kind {
            Some(Kind::ListValue(l)) => Ok(l.iter()),
            _ => Err(NotA::new()),
        }
    }
}

impl ListValue {
    /// An iterator over the items, in order.
    pub fn iter(&self) -> (r: std::slice::Iter<'_, Value>)
        ensures
            vstd::std_specs::slice::into_iter_elts(r) == self.values@,
    {
        self.values.as_slice().iter()
    }
}

/// A list reads as the slice of its items.
impl std::ops::Deref for ListValue {
    type Target = [Value];

    fn deref(&self) -> (r: &[Value])
        ensures
            r@ == self.values@,
    {
        self.values.as_slice()
    }
}

/// A list gives up its items in order.
impl IntoIterator for ListValue {
    type Item = Value;

    type IntoIter = std::vec::IntoIter<Value>;

    fn into_iter(self) -> (r: std::vec::IntoIter<Value>)
        ensures
            r == vstd::std_specs::vec::spec_into_iter(self.values),
    {
        self.values.into_iter()
    }
}

} // verus!
