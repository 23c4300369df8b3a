//! JSON values.
//!
//! [`Json`] holds a parsed value; [`JsonV`] is its mathematical model. A number keeps the
//! integer when it has one; any other number is kept as its text together with the integer
//! projections that the transport reads.

use vstd::prelude::*;

use crate::text::{decimal, decimal_text, same_text, signed_decimal, signed_decimal_text};

verus! {

/// A number that is not an integer in the range of `u64` or `i64`.
#[derive(Debug, PartialEq, Eq)]
pub struct Fraction {
    /// The number as it is rendered.
    pub text: String,
    /// Whether the number has no fractional part.
    pub whole: bool,
    /// Whether the number is greater than zero.
    pub positive: bool,
    /// The number truncated toward zero and clamped to the range of `u64`.
    pub clamped_u64: u64,
    /// The number truncated toward zero and clamped to the range of `i64`.
    pub clamped_i64: i64,
}

/// A JSON number.
#[derive(Debug, PartialEq, Eq)]
pub enum Number {
    /// A non-negative integer.
    Unsigned(u64),
    /// A negative integer.
    Signed(i64),
    /// Any other number.
    Fraction(Fraction),
}

/// A JSON value.
#[derive(Debug, PartialEq, Eq)]
pub enum Json {
    /// `null`
    Null,
    /// `true` or `false`
    Bool(bool),
    /// A number.
    Number(Number),
    /// A string.
    Text(String),
    /// An array.
    Array(Vec<Json>),
    /// An object, as its members in order.
    Object(Vec<(String, Json)>),
}

/// Model of [`Number`].
pub enum NumberV {
    Unsigned(u64),
    Signed(i64),
    Fraction { text: Seq<char>, whole: bool, positive: bool, clamped_u64: u64, clamped_i64: i64 },
}

/// Model of [`Json`].
pub enum JsonV {
    Null,
    Bool(bool),
    Number(NumberV),
    Text(Seq<char>),
    Array(Seq<JsonV>),
    Object(Seq<(Seq<char>, JsonV)>),
}

impl View for Number {
    type V = NumberV;

    open spec fn view(&self) -> NumberV {
        match self {
            Number::Unsigned(n) => NumberV::Unsigned(*n),
            Number::Signed(n) => NumberV::Signed(*n),
            Number::Fraction(f) => NumberV::Fraction {
                text: f.text@,
                whole: f.whole,
                positive: f.positive,
                clamped_u64: f.clamped_u64,
                clamped_i64: f.clamped_i64,
            },
        }
    }
}

/// The model of a value.
pub open spec fn json_view(j: Json) -> JsonV
    decreases j,
{
    match j {
        Json::Null => JsonV::Null,
        Json::Bool(b) => JsonV::Bool(b),
        Json::Number(n) => JsonV::Number(n@),
        Json::Text(s) => JsonV::Text(s@),
        Json::Array(items) => JsonV::Array(
            Seq::new(
                items@.len(),
                |i: int|
                    if 0 <= i < items@.len() {
                        json_view(items@[i])
                    } else {
                        JsonV::Null
                    },
            ),
        ),
        Json::Object(members) => JsonV::Object(
            Seq::new(
                members@.len(),
                |i: int|
                    if 0 <= i < members@.len() {
                        (members@[i].0@, json_view(members@[i].1))
                    } else {
                        (Seq::<char>::empty(), JsonV::Null)
                    },
            ),
        ),
    }
}

impl View for Json {
    type V = JsonV;

    open spec fn view(&self) -> JsonV {
        json_view(*self)
    }
}

/// The value of the first member named `key` at or after position `from`.
pub open spec fn member_from(members: Seq<(Seq<char>, JsonV)>, key: Seq<char>, from: int) -> Option<
    JsonV,
>
    decreases members.len() - from,
{
    if from < 0 || from >= members.len() {
        None
    } else if members[from].0 == key {
        Some(members[from].1)
    } else {
        member_from(members, key, from + 1)
    }
}

impl JsonV {
    /// The member `key` of an object; nothing for any other value.
    pub open spec fn field(self, key: Seq<char>) -> Option<JsonV> {
        match self {
            JsonV::Object(members) => member_from(members, key, 0),
            _ => None,
        }
    }

    /// The characters of a string value.
    pub open spec fn text(self) -> Option<Seq<char>> {
        match self {
            JsonV::Text(s) => Some(s),
            _ => None,
        }
    }

    /// The value of a number that is an unsigned integer.
    pub open spec fn unsigned(self) -> Option<u64> {
        match self {
            JsonV::Number(NumberV::Unsigned(n)) => Some(n),
            _ => None,
        }
    }
}

/// The value under `key` of an optional object.
pub open spec fn opt_field(v: Option<JsonV>, key: Seq<char>) -> Option<JsonV> {
    match v {
        Some(j) => j.field(key),
        None => None,
    }
}

/// The model of an optional value.
pub open spec fn opt_json(v: Option<Json>) -> Option<JsonV> {
    match v {
        Some(j) => Some(j@),
        None => None,
    }
}

/// The model of an optional reference to a value.
pub open spec fn opt_json_ref(v: Option<&Json>) -> Option<JsonV> {
    match v {
        Some(j) => Some(j@),
        None => None,
    }
}

impl NumberV {
    /// How the number is rendered.
    pub open spec fn rendered(self) -> Seq<char> {
        match self {
            NumberV::Unsigned(n) => decimal(n as nat),
            NumberV::Signed(n) => signed_decimal(n as int),
            NumberV::Fraction { text, .. } => text,
        }
    }
}

impl Number {
    /// Renders the number.
    pub fn rendered(&self) -> (r: String)
        ensures
            r@ == self@.rendered(),
    {
        match self {
            Number::Unsigned(n) => decimal_text(*n),
            Number::Signed(n) => signed_decimal_text(*n),
            Number::Fraction(f) => f.text.clone(),
        }
    }

    /// A copy of the number.
    pub fn duplicate(&self) -> (r: Self)
        ensures
            r@ == self@,
    {
        match self {
            Number::Unsigned(n) => Number::Unsigned(*n),
            Number::Signed(n) => Number::Signed(*n),
            Number::Fraction(f) => Number::Fraction(
                Fraction {
                    text: f.text.clone(),
                    whole: f.whole,
                    positive: f.positive,
                    clamped_u64: f.clamped_u64,
                    clamped_i64: f.clamped_i64,
                },
            ),
        }
    }
}

impl Json {
    /// The member `key` of an object.
    pub fn get(&self, key: &str) -> (r: Option<&Json>)
        ensures
            opt_json_ref(r) == self@.field(key@),
    {
        match self {
            Json::Object(members) => {
                let mut i: usize = 0;
                let ghost model = self@->Object_0;
                while i < members.len()
                    invariant
                        i <= members@.len(),
                        model.len() == members@.len(),
                        self@ == JsonV::Object(model),
                        forall|j: int|
                            0 <= j < members@.len() ==> #[trigger] model[j] == (
                                members@[j].0@,
                                members@[j].1@,
                            ),
                        member_from(model, key@, 0) == member_from(model, key@, i as int),
                    decreases members@.len() - i,
                {
                    assert(model[i as int] == (members@[i as int].0@, members@[i as int].1@));
                    if same_text(members[i].0.as_str(), key) {
                        return Some(&members[i].1);
                    }
                    i = i + 1;
                }
                None
            },
            _ => None,
        }
    }

    /// The characters of a string value.
    pub fn as_str(&self) -> (r: Option<&str>)
        ensures
            match r {
                Some(s) => self@.text() == Some(s@),
                None => self@.text() is None,
            },
    {
        match self {
            Json::Text(s) => Some(s.as_str()),
            _ => None,
        }
    }

    /// The value of a number that is an unsigned integer.
    pub fn as_u64(&self) -> (r: Option<u64>)
        ensures
            r == self@.unsigned(),
    {
        match self {
            Json::Number(Number::Unsigned(n)) => Some(*n),
            _ => None,
        }
    }

    /// A copy of the value.
    pub fn duplicate(&self) -> (r: Json)
        ensures
            r@ == self@,
        decreases self,
    {
        match self {
            Json::Null => Json::Null,
            Json::Bool(b) => Json::Bool(*b),
            Json::Number(n) => Json::Number(n.duplicate()),
            Json::Text(s) => Json::Text(s.clone()),
            Json::Array(items) => {
                let mut out: Vec<Json> = Vec::new();
                let mut i: usize = 0;
                while i < items.len()
                    invariant
                        i <= items@.len(),
                        out@.len() == i,
                        *self == Json::Array(*items),
                        forall|j: int| 0 <= j < i ==> (#[trigger] out@[j])@ == items@[j]@,
                    decreases items@.len() - i,
                {
                    assert(decreases_to!(*items => items@[i as int]));
                    assert(decreases_to!(*self => self->Array_0));
                    out.push(items[i].duplicate());
                    i = i + 1;
                }
                let r = Json::Array(out);
                assert(r@->Array_0 =~= self@->Array_0);
                r
            },
            Json::Object(members) => {
                let mut out: Vec<(String, Json)> = Vec::new();
                let mut i: usize = 0;
                while i < members.len()
                    invariant
                        i <= members@.len(),
                        out@.len() == i,
                        *self == Json::Object(*members),
                        forall|j: int|
                            0 <= j < i ==> (#[trigger] out@[j]).0@ == members@[j].0@ && out@[j].1@
                                == members@[j].1@,
                    decreases members@.len() - i,
                {
                    assert(decreases_to!(*members => members@[i as int]));
                    assert(decreases_to!(*self => self->Object_0));
                    out.push((members[i].0.clone(), members[i].1.duplicate()));
                    i = i + 1;
                }
                let r = Json::Object(out);
                assert(r@->Object_0 =~= self@->Object_0);
                r
            },
        }
    }
}

/// The model of the members of an object.
pub open spec fn members_view(members: Seq<(String, Json)>) -> Seq<(Seq<char>, JsonV)> {
    Seq::new(members.len(), |i: int| (members[i].0@, members[i].1@))
}

/// Appends one member.
pub fn push_member(members: &mut Vec<(String, Json)>, key: &str, value: Json)
    ensures
        members_view(final(members)@) == members_view(old(members)@).push((key@, value@)),
{
    members.push((key.to_owned(), value));
    assert(members_view(members@) =~= members_view(old(members)@).push((key@, value@)));
}

/// The object with the given members.
pub fn object(members: Vec<(String, Json)>) -> (r: Json)
    ensures
        r@ == JsonV::Object(members_view(members@)),
{
    let r = Json::Object(members);
    assert(r@->Object_0 =~= members_view(members@));
    r
}

/// A string value.
pub fn text_value(s: &str) -> (r: Json)
    ensures
        r@ == JsonV::Text(s@),
{
    Json::Text(s.to_owned())
}

/// An unsigned integer.
pub fn unsigned_value(n: u64) -> (r: Json)
    ensures
        r@ == JsonV::Number(NumberV::Unsigned(n)),
{
    Json::Number(Number::Unsigned(n))
}

/// A copy of an optional value.
pub fn duplicate_opt(v: &Option<Json>) -> (r: Option<Json>)
    ensures
        opt_json(r) == opt_json(*v),
{
    match v {
        Some(j) => Some(j.duplicate()),
        None => None,
    }
}

/// The member `key` of an optional object.
pub fn get_opt<'a>(v: Option<&'a Json>, key: &str) -> (r: Option<&'a Json>)
    ensures
        opt_json_ref(r) == opt_field(opt_json_ref(v), key@),
{
    match v {
        Some(j) => j.get(key),
        None => None,
    }
}

} // verus!
