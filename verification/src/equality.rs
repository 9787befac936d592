//! Equality of values.
//!
//! Two values are equal when they have the same kind and equal payloads.
//! Doubles compare as the numbers they stand for, lists item by item, and
//! structs field by field, whatever the order of their fields.

use crate::ordered_map::lookup;
use crate::value::{lemma_fields_view_lookup, Kind, Value, ValueView};
use vstd::prelude::*;

verus! {

/// Whether the bit pattern stands for no number.
pub open spec fn double_is_nan(bits: u64) -> bool {
    (bits & 0x7ff0_0000_0000_0000) == 0x7ff0_0000_0000_0000 && (bits & 0x000f_ffff_ffff_ffff) != 0
}

/// Whether the bit pattern stands for zero, of either sign.
pub open spec fn double_is_zero(bits: u64) -> bool {
    (bits & 0x7fff_ffff_ffff_ffff) == 0
}

/// Whether two bit patterns stand for equal doubles: neither stands for no
/// number, and they are the same pattern or both stand for zero.
pub open spec fn double_eq(a: u64, b: u64) -> bool {
    !double_is_nan(a) && !double_is_nan(b) && (a == b || (double_is_zero(a) && double_is_zero(b)))
}

/// Whether two bit patterns stand for equal doubles.
pub fn same_double(a: u64, b: u64) -> (r: bool)
    ensures
        r == double_eq(a, b),
{
    let a_nan = (a & 0x7ff0_0000_0000_0000) == 0x7ff0_0000_0000_0000 && (a & 0x000f_ffff_ffff_ffff)
        != 0;
    let b_nan = (b & 0x7ff0_0000_0000_0000) == 0x7ff0_0000_0000_0000 && (b & 0x000f_ffff_ffff_ffff)
        != 0;
    let zeros = (a & 0x7fff_ffff_ffff_ffff) == 0 && (b & 0x7fff_ffff_ffff_ffff) == 0;
    !a_nan && !b_nan && (a == b || zeros)
}

impl ValueView {
    /// Whether the value equals `other`.
    pub open spec fn same(self, other: ValueView) -> bool
        decreases self,
    {
        match (self, other) {
            (ValueView::Absent, ValueView::Absent) => true,
            (ValueView::Null(a), ValueView::Null(b)) => a == b,
            (ValueView::Bool(a), ValueView::Bool(b)) => a == b,
            (ValueView::Integer(a), ValueView::Integer(b)) => a == b,
            (ValueView::Double(a), ValueView::Double(b)) => double_eq(a, b),
            (ValueView::Text(a), ValueView::Text(b)) => a == b,
            (ValueView::List(a), ValueView::List(b)) => {
                &&& a.len() == b.len()
                &&& forall|i: int| 0 <= i < a.len() ==> (#[trigger] a[i]).same(b[i])
            },
            (ValueView::Struct(a), ValueView::Struct(b)) => {
                &&& a.len() == b.len()
                &&& forall|i: int|
                    0 <= i < a.len() ==> match lookup(b, (#[trigger] a[i]).0) {
                        Some(v) => a[i].1.same(v),
                        None => false,
                    }
            },
            _ => false,
        }
    }
}

impl Value {
    /// Whether the value equals `other`.
    pub fn same(&self, other: &Value) -> (r: bool)
        ensures
            r == self@.same(other@),
        decreases self,
    {
        match (&self.kind, &other.kind) {
            (None, None) => true,
            (Some(Kind::NullValue(a)), Some(Kind::NullValue(b))) => *a == *b,
            (Some(Kind::BoolValue(a)), Some(Kind::BoolValue(b))) => *a == *b,
            (Some(Kind::IntegerValue(a)), Some(Kind::IntegerValue(b))) => *a == *b,
            (Some(Kind::DoubleValue(a)), Some(Kind::DoubleValue(b))) => same_double(*a, *b),
            (Some(Kind::StringValue(a)), Some(Kind::StringValue(b))) => *a == *b,
            (Some(Kind::ListValue(a)), Some(Kind::ListValue(b))) => {
                let n = a.values.len();
                if n != b.values.len() {
                    return false;
                }
                let mut i: usize = 0;
                while i < n
                    invariant
                        n == a.values@.len(),
                        n == b.values@.len(),
                        i <= n,
                        self.kind == Some(Kind::ListValue(*a)),
                        other.kind == Some(Kind::ListValue(*b)),
                        forall|k: int| 0 <= k < i ==> (#[trigger] a@[k]).same(b@[k]),
                    decreases n - i,
                {
                    proof {
                        assert(decreases_to!(a.values => a.values[i as int]));
                        assert(decreases_to!(self.kind => self.kind->Some_0));
                        assert(decreases_to!(self.kind->Some_0 => self.kind->Some_0->ListValue_0));
                    }
                    if !a.values[i].same(&b.values[i]) {
                        assert(!a@[i as int].same(b@[i as int]));
                        return false;
                    }
                    i += 1;
                }
                assert(self@ == ValueView::List(a@) && other@ == ValueView::List(b@));
                true
            },
            (Some(Kind::StructValue(a)), Some(Kind::StructValue(b))) => {
                let n = a.fields.len();
                if n != b.fields.len() {
                    return false;
                }
                let mut i: usize = 0;
                while i < n
                    invariant
                        n == a.fields.entries().len(),
                        n == b.fields.entries().len(),
                        i <= n,
                        self.kind == Some(Kind::StructValue(*a)),
                        other.kind == Some(Kind::StructValue(*b)),
                        forall|k: int|
                            0 <= k < i ==> match lookup(b@, (#[trigger] a@[k]).0) {
                                Some(v) => a@[k].1.same(v),
                                None => false,
                            },
                    decreases n - i,
                {
                    proof {
                        a.fields.lemma_value_smaller(i as int);
                        assert(decreases_to!(self.kind => self.kind->Some_0));
                        assert(decreases_to!(self.kind->Some_0 => self.kind->Some_0->StructValue_0));
                        use_type_invariant(&b.fields);
                        lemma_fields_view_lookup(b.fields, a@[i as int].0);
                    }
                    match b.fields.get(a.fields.key_at(i).as_str()) {
                        Some(v) => {
                            if !a.fields.value_at(i).same(v) {
                                assert(lookup(b@, a@[i as int].0) == Some(v@));
                                return false;
                            }
                        },
                        None => {
                            assert(lookup(b@, a@[i as int].0) is None);
                            return false;
                        },
                    }
                    i += 1;
                }
                assert(self@ == ValueView::Struct(a@) && other@ == ValueView::Struct(b@));
                true
            },
            _ => false,
        }
    }
}

impl PartialEq for Value {
    fn eq(&self, other: &Value) -> (r: bool) {
        self.same(other)
    }
}

impl vstd::std_specs::cmp::PartialEqSpecImpl for Value {
    open spec fn obeys_eq_spec() -> bool {
        true
    }

    open spec fn eq_spec(&self, other: &Value) -> bool {
        self@.same(other@)
    }
}

} // verus!
