//! Point records and the lookup of a payload value by key.

use crate::ordered_map::{lookup, OrderedMap};
use crate::point_id::PointId;
use crate::value::{
    fields_view, found_view, lemma_fields_view_lookup, or_null, Value, ValueView,
};
use vstd::prelude::*;

verus! {

/// The payload of a point: values by key.
#[derive(Debug)]
pub struct Payload {
    pub fields: OrderedMap<Value>,
}

/// The vector of a point: its components, each as an IEEE-754 binary32 bit
/// pattern.
#[derive(Debug)]
pub struct Vectors {
    pub components: Vec<u32>,
}

/// A point as it is stored: an identifier, vectors and a payload.
#[derive(Debug)]
pub struct PointStruct {
    pub id: Option<PointId>,
    pub payload: OrderedMap<Value>,
    pub vectors: Option<Vectors>,
}

/// A point as a retrieval returns it.
#[derive(Debug)]
pub struct RetrievedPoint {
    pub id: Option<PointId>,
    pub payload: OrderedMap<Value>,
}

/// A point as a search returns it.
#[derive(Debug)]
pub struct ScoredPoint {
    pub id: Option<PointId>,
    pub payload: OrderedMap<Value>,
    pub version: u64,
}

impl PointStruct {
    /// A point with the given identifier, vectors and payload.
    pub fn new<I: Into<PointId>, V: Into<Vectors>, P: Into<Payload>>(
        id: I,
        vectors: V,
        payload: P,
    ) -> (r: Self)
        ensures
            r.id is Some,
            r.vectors is Some,
            call_ensures(<I as Into<PointId>>::into, (id,), r.id.unwrap()),
            call_ensures(<V as Into<Vectors>>::into, (vectors,), r.vectors.unwrap()),
            exists|p: Payload|
                call_ensures(<P as Into<Payload>>::into, (payload,), p) && r.payload == p.fields,
    {
        let payload: Payload = payload.into();
        Self { id: Some(id.into()), payload: payload.fields, vectors: Some(vectors.into()) }
    }
}

impl RetrievedPoint {
    /// The payload value under `key`, if the payload holds the key.
    pub open spec fn spec_try_get(&self, key: Seq<char>) -> Option<ValueView> {
        lookup(fields_view(self.payload), key)
    }

    /// The payload value under `key`, or a null value where the payload lacks
    /// the key.
    pub fn get(&self, key: &str) -> (r: &Value)
        ensures
            r@ == or_null(self.spec_try_get(key@)),
    {
        match self.try_get(key) {
            Some(v) => v,
            None => Value::null_ref(),
        }
    }

    /// The payload value under `key`, or `None` where the payload lacks the
    /// key.
    pub fn try_get(&self, key: &str) -> (r: Option<&Value>)
        ensures
            found_view(r) == self.spec_try_get(key@),
    {
        proof {
            use_type_invariant(&self.payload);
            lemma_fields_view_lookup(self.payload, key@);
        }
        self.payload.get(key)
    }
}

impl ScoredPoint {
    /// The payload value under `key`, if the payload holds the key.
    pub open spec fn spec_try_get(&self, key: Seq<char>) -> Option<ValueView> {
        lookup(fields_view(self.payload), key)
    }

    /// The payload value under `key`, or a null value where the payload lacks
    /// the key.
    pub fn get(&self, key: &str) -> (r: &Value)
        ensures
            r@ == or_null(self.spec_try_get(key@)),
    {
        match self.try_get(key) {
            Some(v) => v,
            None => Value::null_ref(),
        }
    }

    /// The payload value under `key`, or `None` where the payload lacks the
    /// key.
    pub fn try_get(&self, key: &str) -> (r: Option<&Value>)
        ensures
            found_view(r) == self.spec_try_get(key@),
    {
        proof {
            use_type_invariant(&self.payload);
            lemma_fields_view_lookup(self.payload, key@);
        }
        self.payload.get(key)
    }
}

impl Default for RetrievedPoint {
    /// A point without an identifier and with an empty payload.
    fn default() -> (r: Self)
        ensures
            r.id is None,
            r.payload.entries() == Seq::<(Seq<char>, Value)>::empty(),
    {
        RetrievedPoint { id: None, payload: OrderedMap::new() }
    }
}

impl Default for ScoredPoint {
    /// A point without an identifier, with an empty payload and version 0.
    fn default() -> (r: Self)
        ensures
            r.id is None,
            r.payload.entries() == Seq::<(Seq<char>, Value)>::empty(),
            r.version == 0,
    {
        ScoredPoint { id: None, payload: OrderedMap::new(), version: 0 }
    }
}

} // verus!
