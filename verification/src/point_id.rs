//! Point identifiers: a number or the canonical text of a UUID.

use crate::text::digit;
use vstd::prelude::*;

verus! {

#[verifier::external_type_specification]
#[verifier::external_body]
pub struct ExUuid(uuid::Uuid);

/// The two forms of an identifier.
#[derive(Debug)]
pub enum PointIdOptions {
    Num(u64),
    Uuid(String),
}

/// A point identifier. The form may be absent.
#[derive(Debug)]
pub struct PointId {
    pub point_id_options: Option<PointIdOptions>,
}

/// A point identifier as a plain value.
pub enum PointIdView {
    Absent,
    Num(u64),
    Uuid(Seq<char>),
}

/// What an identifier feeds to a hasher.
#[derive(Debug)]
pub enum HashInput<'a> {
    /// Nothing is written.
    Nothing,
    /// One 64-bit word is written.
    Word(u64),
    /// The string is hashed as a `str`.
    Text(&'a str),
}

/// The lower-case hexadecimal digit for `d`.
pub open spec fn hex_digit(d: int) -> char {
    if d < 10 {
        digit(d)
    } else if d == 10 {
        'a'
    } else if d == 11 {
        'b'
    } else if d == 12 {
        'c'
    } else if d == 13 {
        'd'
    } else if d == 14 {
        'e'
    } else {
        'f'
    }
}

/// 16 to the power `e`.
pub open spec fn pow16(e: nat) -> nat
    decreases e,
{
    if e == 0 {
        1
    } else {
        16 * pow16((e - 1) as nat)
    }
}

/// The `k`-th of the 32 hexadecimal digits of `value`, the most significant
/// being the first.
pub open spec fn hex_at(value: u128, k: int) -> int {
    (value as int / pow16((31 - k) as nat) as int) % 16
}

/// How many hyphens stand before position `i` of the canonical text.
pub open spec fn hyphens_before(i: int) -> int {
    if i < 8 {
        0
    } else if i < 13 {
        1
    } else if i < 18 {
        2
    } else if i < 23 {
        3
    } else {
        4
    }
}

/// The canonical text of the UUID with the 128-bit value `value`: its 32
/// lower-case hexadecimal digits in groups of 8, 4, 4, 4 and 12, with a hyphen
/// between two groups.
pub open spec fn uuid_text(value: u128) -> Seq<char> {
    Seq::new(
        36,
        |i: int|
            if i == 8 || i == 13 || i == 18 || i == 23 {
                '-'
            } else {
                hex_digit(hex_at(value, i - hyphens_before(i)))
            },
    )
}

/// The 128-bit value of a UUID, its first byte being the most significant.
pub uninterp spec fn uuid_value(uuid: uuid::Uuid) -> u128;

/// Formats a UUID with its `Display`. Trusted: the result is the canonical
/// text of the UUID's 128-bit value, hyphenated and in lower case.
#[verifier::external_body]
fn uuid_to_string(uuid: &uuid::Uuid) -> (r: String)
    ensures
        r@ == uuid_text(uuid_value(*uuid)),
{
    uuid.to_string()
}

/// Makes the UUID with a 128-bit value, with `uuid::Uuid::from_u128`.
/// Trusted: the result has the value it was made of.
#[verifier::external_body]
fn uuid_from_value(value: u128) -> (r: uuid::Uuid)
    ensures
        uuid_value(r) == value,
{
    uuid::Uuid::from_u128(value)
}

impl View for PointIdOptions {
    type V = PointIdView;

    open spec fn view(&self) -> PointIdView {
        match self {
            PointIdOptions::Num(n) => PointIdView::Num(*n),
            PointIdOptions::Uuid(s) => PointIdView::Uuid(s@),
        }
    }
}

impl View for PointId {
    type V = PointIdView;

    open spec fn view(&self) -> PointIdView {
        match self.point_id_options {
            Some(options) => options@,
            None => PointIdView::Absent,
        }
    }
}

impl PointIdOptions {
    /// The identifier that holds the canonical text of `uuid`.
    pub fn from_uuid(uuid: uuid::Uuid) -> (r: Self)
        ensures
            r@ == PointIdView::Uuid(uuid_text(uuid_value(uuid))),
    {
        PointIdOptions::Uuid(uuid_to_string(&uuid))
    }
}

impl PointId {
    /// The identifier that holds the number `n`.
    pub fn from_num(n: u64) -> (r: Self)
        ensures
            r@ == PointIdView::Num(n),
    {
        PointId { point_id_options: Some(PointIdOptions::Num(n)) }
    }

    /// The identifier that holds the canonical text of `uuid`.
    pub fn from_uuid(uuid: uuid::Uuid) -> (r: Self)
        ensures
            r@ == PointIdView::Uuid(uuid_text(uuid_value(uuid))),
    {
        PointId { point_id_options: Some(PointIdOptions::from_uuid(uuid)) }
    }

    /// The identifier that holds the canonical text of the UUID with the
    /// 128-bit value `value`.
    pub fn from_uuid_value(value: u128) -> (r: Self)
        ensures
            r@ == PointIdView::Uuid(uuid_text(value)),
    {
        PointId::from_uuid(uuid_from_value(value))
    }

    /// What the identifier feeds to a hasher: a number as one 64-bit word, a
    /// UUID as its string, an identifier without a form nothing.
    pub fn hash_input(&self) -> (r: HashInput<'_>)
        ensures
            match self@ {
                PointIdView::Num(n) => r == HashInput::Word(n),
                PointIdView::Uuid(s) => r matches HashInput::Text(t) && t@ == s,
                PointIdView::Absent => r == HashInput::Nothing,
            },
    {
        match &self.point_id_options {
            Some(PointIdOptions::Num(n)) => HashInput::Word(*n),
            Some(PointIdOptions::Uuid(s)) => HashInput::Text(s.as_str()),
            None => HashInput::Nothing,
        }
    }
}

impl From<uuid::Uuid> for PointIdOptions {
    fn from(uuid: uuid::Uuid) -> (r: Self)
        ensures
            r@ == PointIdView::Uuid(uuid_text(uuid_value(uuid))),
    {
        PointIdOptions::from_uuid(uuid)
    }
}

// An identifier made from a UUID holds a `String`, which no specification
// expression can build: `from` states its result over the view.
impl vstd::std_specs::convert::FromSpecImpl<uuid::Uuid> for PointIdOptions {
    open spec fn obeys_from_spec() -> bool {
        false
    }

    open spec fn from_spec(uuid: uuid::Uuid) -> Self {
        arbitrary()
    }
}

impl vstd::std_specs::convert::FromSpecImpl<uuid::Uuid> for PointId {
    open spec fn obeys_from_spec() -> bool {
        false
    }

    open spec fn from_spec(uuid: uuid::Uuid) -> Self {
        arbitrary()
    }
}

impl From<uuid::Uuid> for PointId {
    fn from(uuid: uuid::Uuid) -> (r: Self)
        ensures
            r@ == PointIdView::Uuid(uuid_text(uuid_value(uuid))),
    {
        PointId::from_uuid(uuid)
    }
}

/// Two identifiers are equal when they have the same form and hold the same
/// number or the same text. A number never equals a UUID.
impl PartialEq for PointIdOptions {
    fn eq(&self, other: &PointIdOptions) -> (r: bool) {
        match (self, other) {
            (PointIdOptions::Num(a), PointIdOptions::Num(b)) => *a == *b,
            (PointIdOptions::Uuid(a), PointIdOptions::Uuid(b)) => *a == *b,
            _ => false,
        }
    }
}

impl vstd::std_specs::cmp::PartialEqSpecImpl for PointIdOptions {
    open spec fn obeys_eq_spec() -> bool {
        true
    }

    open spec fn eq_spec(&self, other: &PointIdOptions) -> bool {
        self@ == other@
    }
}

/// Two identifiers are equal when both lack a form or both have equal forms.
impl PartialEq for PointId {
    fn eq(&self, other: &PointId) -> (r: bool) {
        match (&self.point_id_options, &other.point_id_options) {
            (Some(a), Some(b)) => *a == *b,
            (None, None) => true,
            _ => false,
        }
    }
}

impl vstd::std_specs::cmp::PartialEqSpecImpl for PointId {
    open spec fn obeys_eq_spec() -> bool {
        true
    }

    open spec fn eq_spec(&self, other: &PointId) -> bool {
        self@ == other@
    }
}

} // verus!
