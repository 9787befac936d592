//! The text rendering of a value: literals for scalars, quoted strings,
//! `[a,b]` for lists and `{"k":v}` for structs.

use crate::ordered_map::keys_of;
use crate::value::{Kind, Value, ValueView};
use vstd::prelude::*;

verus! {

/// The text of a boolean.
pub open spec fn bool_text(b: bool) -> Seq<char> {
    if b {
        seq!['t', 'r', 'u', 'e']
    } else {
        seq!['f', 'a', 'l', 's', 'e']
    }
}

/// The text of null and of a value without a kind.
pub open spec fn null_text() -> Seq<char> {
    seq!['n', 'u', 'l', 'l']
}

/// The decimal digit for `d`.
pub open spec fn digit(d: int) -> char {
    if d == 0 {
        '0'
    } else if d == 1 {
        '1'
    } else if d == 2 {
        '2'
    } else if d == 3 {
        '3'
    } else if d == 4 {
        '4'
    } else if d == 5 {
        '5'
    } else if d == 6 {
        '6'
    } else if d == 7 {
        '7'
    } else if d == 8 {
        '8'
    } else {
        '9'
    }
}

/// The decimal text of a natural number, without leading zeros.
pub open spec fn nat_text(n: nat) -> Seq<char>
    decreases n,
{
    if n < 10 {
        seq![digit(n as int)]
    } else {
        nat_text(n / 10).push(digit((n % 10) as int))
    }
}

/// The decimal text of an integer: a minus sign before the digits of a
/// negative one.
pub open spec fn int_text(i: int) -> Seq<char> {
    if i < 0 {
        seq!['-'] + nat_text((-i) as nat)
    } else {
        nat_text(i as nat)
    }
}

/// The parts one after another, with a comma between each two.
pub open spec fn join(parts: Seq<Seq<char>>) -> Seq<char>
    decreases parts.len(),
{
    if parts.len() == 0 {
        Seq::empty()
    } else if parts.len() == 1 {
        parts[0]
    } else {
        join(parts.drop_last()) + seq![','] + parts.last()
    }
}

/// The text that `str`'s `Debug` formatting gives for `s`: the string in
/// double quotes, with quotes, backslashes and unprintable characters escaped.
pub uninterp spec fn debug_quoted(s: Seq<char>) -> Seq<char>;

/// The text of one field of a struct.
pub open spec fn field_text(key: Seq<char>, value: Seq<char>) -> Seq<char> {
    debug_quoted(key) + seq![':'] + value
}

/// The text of a list whose items have the texts `parts`.
pub open spec fn list_text(parts: Seq<Seq<char>>) -> Seq<char> {
    seq!['['] + join(parts) + seq![']']
}

/// The texts of the fields of a struct with the keys `keys`, whose values have
/// the texts `parts`.
pub open spec fn field_texts(keys: Seq<Seq<char>>, parts: Seq<Seq<char>>) -> Seq<Seq<char>> {
    Seq::new(parts.len(), |i: int| field_text(keys[i], parts[i]))
}

/// The text of a struct with the keys `keys`, whose values have the texts
/// `parts`.
pub open spec fn struct_text(keys: Seq<Seq<char>>, parts: Seq<Seq<char>>) -> Seq<char> {
    seq!['{'] + join(field_texts(keys, parts)) + seq!['}']
}

/// Joining one more part adds a comma and the part, or the part alone where
/// it is the first.
pub proof fn lemma_join_push(parts: Seq<Seq<char>>, part: Seq<char>)
    ensures
        join(parts.push(part)) == if parts.len() == 0 {
            part
        } else {
            join(parts) + seq![','] + part
        },
{
    assert(parts.push(part).drop_last() =~= parts);
}

/// Formats `s` with `str`'s `Debug`. Trusted: the result is the text named
/// [`debug_quoted`].
#[verifier::external_body]
fn quoted(s: &str) -> (r: String)
    ensures
        r@ == debug_quoted(s@),
{
    format!("{:?}", s)
}

/// The one-character text of the digit `d`.
fn digit_text(d: u64) -> (r: &'static str)
    requires
        d < 10,
    ensures
        r@ == seq![digit(d as int)],
{
    proof {
        reveal_strlit("0");
        reveal_strlit("1");
        reveal_strlit("2");
        reveal_strlit("3");
        reveal_strlit("4");
        reveal_strlit("5");
        reveal_strlit("6");
        reveal_strlit("7");
        reveal_strlit("8");
        reveal_strlit("9");
    }
    let r = if d == 0 {
        "0"
    } else if d == 1 {
        "1"
    } else if d == 2 {
        "2"
    } else if d == 3 {
        "3"
    } else if d == 4 {
        "4"
    } else if d == 5 {
        "5"
    } else if d == 6 {
        "6"
    } else if d == 7 {
        "7"
    } else if d == 8 {
        "8"
    } else {
        "9"
    };
    assert(r@ =~= seq![digit(d as int)]);
    r
}

/// The decimal text of `n`.
pub fn natural_text(n: u64) -> (r: String)
    ensures
        r@ == nat_text(n as nat),
    decreases n,
{
    if n < 10 {
        String::from_str(digit_text(n))
    } else {
        let mut s = natural_text(n / 10);
        s.append(digit_text(n % 10));
        assert(s@ =~= nat_text(n as nat));
        s
    }
}

/// The decimal text of `i`.
pub fn integer_text(i: i64) -> (r: String)
    ensures
        r@ == int_text(i as int),
{
    if i < 0 {
        let magnitude: u64 = if i == i64::MIN {
            9223372036854775808u64
        } else {
            (-i) as u64
        };
        let mut s = String::from_str("-");
        let digits = natural_text(magnitude);
        s.append(digits.as_str());
        proof {
            reveal_strlit("-");
            assert(s@ =~= int_text(i as int));
        }
        s
    } else {
        natural_text(i as u64)
    }
}

/// The text `true` or `false`.
pub fn boolean_text(b: bool) -> (r: String)
    ensures
        r@ == bool_text(b),
{
    proof {
        reveal_strlit("true");
        reveal_strlit("false");
    }
    let r = if b {
        String::from_str("true")
    } else {
        String::from_str("false")
    };
    assert(r@ =~= bool_text(b));
    r
}

/// The texts that the function `double` may return for a bit pattern, as a
/// relation between the two.
pub open spec fn double_texts<F: Fn(u64) -> String>(double: F) -> spec_fn(u64, Seq<char>) -> bool {
    |bits: u64, text: Seq<char>| exists|s: String| call_ensures(double, (bits,), s) && s@ == text
}

/// Where `double` relates a bit pattern to the text that `text` gives for it
/// and to no other, a rendering of a value is its text.
pub proof fn lemma_renders_as_text_of(
    value: ValueView,
    double: spec_fn(u64, Seq<char>) -> bool,
    text: spec_fn(u64) -> Seq<char>,
    rendering: Seq<char>,
)
    requires
        forall|bits: u64, t: Seq<char>| #[trigger] double(bits, t) ==> t == text(bits),
        value.renders_as(double, rendering),
    ensures
        rendering == value.text_of(text),
    decreases value,
{
    match value {
        ValueView::List(items) => {
            let parts = choose|parts: Seq<Seq<char>>|
                #![trigger list_text(parts)]
                {
                    &&& parts.len() == items.len()
                    &&& forall|i: int|
                        0 <= i < parts.len() ==> (#[trigger] items[i]).renders_as(double, parts[i])
                    &&& rendering == list_text(parts)
                };
            let texts = ValueView::texts_of(items, text);
            assert forall|i: int| 0 <= i < parts.len() implies parts[i] == texts[i] by {
                assert(items[i].renders_as(double, parts[i]));
                lemma_renders_as_text_of(items[i], double, text, parts[i]);
            }
            assert(parts =~= texts);
        },
        ValueView::Struct(fields) => {
            let parts = choose|parts: Seq<Seq<char>>|
                #![trigger struct_text(keys_of(fields), parts)]
                {
                    &&& parts.len() == fields.len()
                    &&& forall|i: int|
                        0 <= i < parts.len() ==> (#[trigger] fields[i]).1.renders_as(
                            double,
                            parts[i],
                        )
                    &&& rendering == struct_text(keys_of(fields), parts)
                };
            let texts = ValueView::field_texts_of(fields, text);
            assert forall|i: int| 0 <= i < parts.len() implies parts[i] == texts[i] by {
                assert(fields[i].1.renders_as(double, parts[i]));
                lemma_renders_as_text_of(fields[i].1, double, text, parts[i]);
            }
            assert(parts =~= texts);
        },
        _ => {},
    }
}

impl ValueView {
    /// Whether `text` is a rendering of the value, where `double` relates the
    /// bit pattern of a double to its text.
    ///
    /// Booleans and integers render as their literals, strings in quotes,
    /// lists as `[a,b]` and structs as `{"k":v}`, both in stored order and
    /// without spaces; null and a value without a kind render as `null`.
    pub open spec fn renders_as(
        self,
        double: spec_fn(u64, Seq<char>) -> bool,
        text: Seq<char>,
    ) -> bool
        decreases self,
    {
        match self {
            ValueView::Bool(b) => text == bool_text(b),
            ValueView::Integer(i) => text == int_text(i as int),
            ValueView::Double(bits) => double(bits, text),
            ValueView::Text(s) => text == debug_quoted(s),
            ValueView::List(items) => exists|parts: Seq<Seq<char>>|
                #![trigger list_text(parts)]
                {
                    &&& parts.len() == items.len()
                    &&& forall|i: int|
                        0 <= i < parts.len() ==> (#[trigger] items[i]).renders_as(double, parts[i])
                    &&& text == list_text(parts)
                },
            ValueView::Struct(fields) => exists|parts: Seq<Seq<char>>|
                #![trigger struct_text(keys_of(fields), parts)]
                {
                    &&& parts.len() == fields.len()
                    &&& forall|i: int|
                        0 <= i < parts.len() ==> (#[trigger] fields[i]).1.renders_as(
                            double,
                            parts[i],
                        )
                    &&& text == struct_text(keys_of(fields), parts)
                },
            ValueView::Null(_) | ValueView::Absent => text == null_text(),
        }
    }

    /// The text of the value, where `double` gives the text of a double from
    /// its bit pattern.
    pub open spec fn text_of(self, double: spec_fn(u64) -> Seq<char>) -> Seq<char>
        decreases self,
    {
        match self {
            ValueView::Bool(b) => bool_text(b),
            ValueView::Integer(i) => int_text(i as int),
            ValueView::Double(bits) => double(bits),
            ValueView::Text(s) => debug_quoted(s),
            ValueView::List(items) => list_text(Self::texts_of(items, double)),
            ValueView::Struct(fields) => struct_text(
                keys_of(fields),
                Self::field_texts_of(fields, double),
            ),
            ValueView::Null(_) | ValueView::Absent => null_text(),
        }
    }

    /// The texts of `items`, in order.
    pub open spec fn texts_of(items: Seq<ValueView>, double: spec_fn(u64) -> Seq<char>) -> Seq<
        Seq<char>,
    >
        decreases items,
    {
        Seq::new(
            items.len(),
            |i: int|
                if 0 <= i < items.len() {
                    items[i].text_of(double)
                } else {
                    Seq::empty()
                },
        )
    }

    /// The texts of the values of `fields`, in order.
    pub open spec fn field_texts_of(
        fields: Seq<(Seq<char>, ValueView)>,
        double: spec_fn(u64) -> Seq<char>,
    ) -> Seq<Seq<char>>
        decreases fields,
    {
        Seq::new(
            fields.len(),
            |i: int|
                if 0 <= i < fields.len() {
                    fields[i].1.text_of(double)
                } else {
                    Seq::empty()
                },
        )
    }
}

impl Value {
    /// Renders the value as text; `double` is asked for the text of each
    /// double, given its bit pattern.
    pub fn to_text<F: Fn(u64) -> String>(&self, double: &F) -> (r: String)
        requires
            forall|bits: u64| call_requires(*double, (bits,)),
        ensures
            self@.renders_as(double_texts(*double), r@),
        decreases self,
    {
        match &self.kind {
            Some(Kind::BoolValue(b)) => boolean_text(*b),
            Some(Kind::IntegerValue(i)) => integer_text(*i),
            Some(Kind::DoubleValue(bits)) => double(*bits),
            Some(Kind::StringValue(s)) => quoted(s.as_str()),
            Some(Kind::ListValue(l)) => {
                let mut out = String::from_str("[");
                let ghost mut parts = Seq::<Seq<char>>::empty();
                let n = l.values.len();
                let mut i: usize = 0;
                proof {
                    reveal_strlit("[");
                    assert(out@ =~= seq!['['] + join(parts));
                }
                while i < n
                    invariant
                        n == l.values@.len(),
                        i <= n,
                        self.kind == Some(Kind::ListValue(*l)),
                        forall|bits: u64| call_requires(*double, (bits,)),
                        parts.len() == i,
                        forall|k: int|
                            0 <= k < i ==> (#[trigger] l.values@[k])@.renders_as(
                                double_texts(*double),
                                parts[k],
                            ),
                        out@ == seq!['['] + join(parts),
                    decreases n - i,
                {
                    if i > 0 {
                        out.append(",");
                    }
                    proof {
                        assert(decreases_to!(l.values => l.values[i as int]));
                        assert(decreases_to!(self.kind => self.kind->Some_0));
                        assert(decreases_to!(self.kind->Some_0 => self.kind->Some_0->ListValue_0));
                    }
                    let item = l.values[i].to_text(double);
                    out.append(item.as_str());
                    proof {
                        reveal_strlit(",");
                        lemma_join_push(parts, item@);
                        assert(out@ =~= seq!['['] + join(parts.push(item@)));
                        parts = parts.push(item@);
                    }
                    i += 1;
                }
                out.append("]");
                proof {
                    reveal_strlit("]");
                    assert(out@ =~= list_text(parts));
                    assert forall|k: int| 0 <= k < parts.len() implies (#[trigger] self@.items()[k]).renders_as(
                        double_texts(*double),
                        parts[k],
                    ) by {
                        assert(l.values@[k]@.renders_as(double_texts(*double), parts[k]));
                    }
                }
                out
            },
            Some(Kind::StructValue(s)) => {
                let mut out = String::from_str("{");
                let ghost mut parts = Seq::<Seq<char>>::empty();
                let ghost keys = s.fields.keys();
                let n = s.fields.len();
                let mut i: usize = 0;
                proof {
                    reveal_strlit("{");
                    assert(out@ =~= seq!['{'] + join(field_texts(keys, parts)));
                }
                while i < n
                    invariant
                        n == s.fields.entries().len(),
                        i <= n,
                        self.kind == Some(Kind::StructValue(*s)),
                        keys == s.fields.keys(),
                        forall|bits: u64| call_requires(*double, (bits,)),
                        parts.len() == i,
                        forall|k: int|
                            0 <= k < i ==> (#[trigger] s.fields.entries()[k]).1@.renders_as(
                                double_texts(*double),
                                parts[k],
                            ),
                        out@ == seq!['{'] + join(field_texts(keys, parts)),
                    decreases n - i,
                {
                    if i > 0 {
                        out.append(",");
                    }
                    let key = quoted(s.fields.key_at(i).as_str());
                    out.append(key.as_str());
                    out.append(":");
                    proof {
                        s.fields.lemma_value_smaller(i as int);
                        assert(decreases_to!(self.kind => self.kind->Some_0));
                        assert(decreases_to!(self.kind->Some_0 => self.kind->Some_0->StructValue_0));
                    }
                    let item = s.fields.value_at(i).to_text(double);
                    out.append(item.as_str());
                    proof {
                        reveal_strlit(",");
                        reveal_strlit(":");
                        let field = field_text(keys[i as int], item@);
                        lemma_join_push(field_texts(keys, parts), field);
                        assert(field_texts(keys, parts.push(item@)) =~= field_texts(
                            keys,
                            parts,
                        ).push(field));
                        assert(out@ =~= seq!['{'] + join(field_texts(keys, parts.push(item@))));
                        parts = parts.push(item@);
                    }
                    i += 1;
                }
                out.append("}");
                proof {
                    reveal_strlit("}");
                    assert(out@ =~= struct_text(keys, parts));
                    let fields = self@.fields();
                    assert(keys_of(fields) =~= keys);
                    assert forall|k: int| 0 <= k < parts.len() implies (#[trigger] fields[k]).1.renders_as(
                        double_texts(*double),
                        parts[k],
                    ) by {
                        assert(s.fields.entries()[k].1@.renders_as(double_texts(*double), parts[k]));
                    }
                }
                out
            },
            _ => {
                proof {
                    reveal_strlit("null");
                }
                let r = String::from_str("null");
                assert(r@ =~= null_text());
                r
            },
        }
    }
}

} // verus!
