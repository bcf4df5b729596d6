//! A JSON document as the market interfaces return it, with the reading
//! operations the crawlers use (`value[key]`, `as_str`, `as_array`, ...).

use serde_json::Value;
use vstd::prelude::*;

use crate::text::str_eq;

verus! {

/// A JSON number: what matters to the crawlers is whether it is a
/// non-negative integer (`as_u64`).
pub enum JsonNumber {
    /// A non-negative integer.
    PosInt(u64),
    /// A negative integer.
    NegInt(i64),
    /// A number with a fraction or an exponent.
    Float,
}

/// A JSON value. An object lists its members in order; a JSON text never
/// yields two members with one name, and a lookup finds the first.
pub enum JsonValue {
    Null,
    Bool(bool),
    Number(JsonNumber),
    Str(String),
    Array(Vec<JsonValue>),
    Object(Vec<(String, JsonValue)>),
}

/// The value that an optional reference stands for, a missing one standing for `null`.
pub open spec fn or_null(v: Option<&JsonValue>) -> JsonValue {
    match v {
        Some(x) => *x,
        None => JsonValue::Null,
    }
}

/// The value of the first member named `key`.
pub open spec fn member_of(entries: Seq<(String, JsonValue)>, key: Seq<char>) -> Option<JsonValue>
    decreases entries.len(),
{
    if entries.len() == 0 {
        None
    } else if entries[0].0@ == key {
        Some(entries[0].1)
    } else {
        member_of(entries.drop_first(), key)
    }
}

impl JsonValue {
    /// `value[key]`: the member named `key`, or `null` when there is none or the
    /// value is not an object.
    pub open spec fn at(self, key: Seq<char>) -> JsonValue {
        match self {
            JsonValue::Object(entries) => match member_of(entries@, key) {
                Some(v) => v,
                None => JsonValue::Null,
            },
            _ => JsonValue::Null,
        }
    }

    /// `value.as_str()`.
    pub open spec fn text(self) -> Option<Seq<char>> {
        match self {
            JsonValue::Str(s) => Some(s@),
            _ => None,
        }
    }

    /// `value.as_array()`.
    pub open spec fn elements(self) -> Option<Seq<JsonValue>> {
        match self {
            JsonValue::Array(a) => Some(a@),
            _ => None,
        }
    }

    /// `value.as_u64()`.
    pub open spec fn unsigned(self) -> Option<u64> {
        match self {
            JsonValue::Number(JsonNumber::PosInt(n)) => Some(n),
            _ => None,
        }
    }

    /// `value.as_bool()`.
    pub open spec fn boolean(self) -> Option<bool> {
        match self {
            JsonValue::Bool(b) => Some(b),
            _ => None,
        }
    }

    /// `value[key]`, with `None` standing for `null`.
    pub fn get(&self, key: &str) -> (r: Option<&JsonValue>)
        ensures
            or_null(r) == self.at(key@),
    {
        match self {
            JsonValue::Object(entries) => {
                let n = entries.len();
                let mut i: usize = 0;
                assert(entries@.skip(0) =~= entries@);
                while i < n
                    invariant
                        *self == JsonValue::Object(*entries),
                        n == entries@.len(),
                        i <= n,
                        member_of(entries@.skip(i as int), key@) == member_of(entries@, key@),
                    decreases n - i,
                {
                    let ghost rest = entries@.skip(i as int);
                    assert(rest[0] == entries@[i as int]);
                    assert(rest.drop_first() =~= entries@.skip(i + 1));
                    if str_eq(entries[i].0.as_str(), key) {
                        assert(rest[0].0@ == key@);
                        assert(member_of(rest, key@) == Some(rest[0].1));
                        return Some(&entries[i].1);
                    }
                    i = i + 1;
                }
                None
            },
            _ => None,
        }
    }

    /// `value.as_str()`.
    pub fn as_str(&self) -> (r: Option<&str>)
        ensures
            match r {
                Some(s) => self.text() == Some(s@),
                None => self.text() is None,
            },
    {
        match self {
            JsonValue::Str(s) => Some(s.as_str()),
            _ => None,
        }
    }

    /// `value.as_array()`.
    pub fn as_array(&self) -> (r: Option<&Vec<JsonValue>>)
        ensures
            match r {
                Some(a) => self.elements() == Some(a@),
                None => self.elements() is None,
            },
    {
        match self {
            JsonValue::Array(a) => Some(a),
            _ => None,
        }
    }

    /// `value.as_u64()`.
    pub fn as_u64(&self) -> (r: Option<u64>)
        ensures
            r == self.unsigned(),
    {
        match self {
            JsonValue::Number(JsonNumber::PosInt(n)) => Some(*n),
            _ => None,
        }
    }

    /// `value.as_bool()`.
    pub fn as_bool(&self) -> (r: Option<bool>)
        ensures
            r == self.boolean(),
    {
        match self {
            JsonValue::Bool(b) => Some(*b),
            _ => None,
        }
    }
}

/// `value[key]` on a value that may be missing (`None` standing for `null`).
pub fn get_in<'a>(v: Option<&'a JsonValue>, key: &str) -> (r: Option<&'a JsonValue>)
    ensures
        or_null(r) == or_null(v).at(key@),
{
    match v {
        Some(x) => x.get(key),
        None => None,
    }
}

/// `value.as_str()` on a value that may be missing.
pub fn str_in<'a>(v: Option<&'a JsonValue>) -> (r: Option<&'a str>)
    ensures
        match r {
            Some(s) => or_null(v).text() == Some(s@),
            None => or_null(v).text() is None,
        },
{
    match v {
        Some(x) => x.as_str(),
        None => None,
    }
}

/// `value.as_array()` on a value that may be missing.
pub fn array_in<'a>(v: Option<&'a JsonValue>) -> (r: Option<&'a Vec<JsonValue>>)
    ensures
        match r {
            Some(a) => or_null(v).elements() == Some(a@),
            None => or_null(v).elements() is None,
        },
{
    match v {
        Some(x) => x.as_array(),
        None => None,
    }
}

/// `value.as_u64()` on a value that may be missing.
pub fn u64_in(v: Option<&JsonValue>) -> (r: Option<u64>)
    ensures
        r == or_null(v).unsigned(),
{
    match v {
        Some(x) => x.as_u64(),
        None => None,
    }
}

/// `value.as_bool()` on a value that may be missing.
pub fn bool_in(v: Option<&JsonValue>) -> (r: Option<bool>)
    ensures
        r == or_null(v).boolean(),
{
    match v {
        Some(x) => x.as_bool(),
        None => None,
    }
}

/// `value[key]` is the value of the first member named `key`: a member with
/// that name, before which no member has it, gives its value.
pub proof fn lemma_member_first(entries: Seq<(String, JsonValue)>, key: Seq<char>, i: int)
    requires
        0 <= i < entries.len(),
        entries[i].0@ == key,
        forall|j: int| 0 <= j < i ==> (#[trigger] entries[j]).0@ != key,
    ensures
        member_of(entries, key) == Some(entries[i].1),
    decreases i,
{
    if i > 0 {
        assert forall|j: int| 0 <= j < i - 1 implies (#[trigger] entries.drop_first()[j]).0@ != key by {
            assert(entries.drop_first()[j] == entries[j + 1]);
        }
        assert(entries[0].0@ != key);
        lemma_member_first(entries.drop_first(), key, i - 1);
    }
}

/// A name that no member has gives no value.
pub proof fn lemma_member_absent(entries: Seq<(String, JsonValue)>, key: Seq<char>)
    requires
        forall|j: int| 0 <= j < entries.len() ==> (#[trigger] entries[j]).0@ != key,
    ensures
        member_of(entries, key) is None,
    decreases entries.len(),
{
    if entries.len() > 0 {
        assert forall|j: int| 0 <= j < entries.len() - 1 implies (#[trigger] entries.drop_first()[j]).0@ != key by {
            assert(entries.drop_first()[j] == entries[j + 1]);
        }
        assert(entries[0].0@ != key);
        lemma_member_absent(entries.drop_first(), key);
    }
}

/// serde_json's parsed JSON value, carried opaquely.
#[verifier::external_type_specification]
#[verifier::external_body]
pub struct ExJsonDocument(serde_json::Value);

/// The document that serde_json reads from a text: `None` when the text is no
/// JSON text. Its value is named, not stated.
pub uninterp spec fn json_of(text: Seq<char>) -> Option<JsonValue>;

/// The library's model of a value that serde_json parsed: variant for variant,
/// a number by whether serde_json gives it as `u64`, as `i64` or neither.
#[verifier::external_body]
fn to_json(v: &serde_json::Value) -> JsonValue {
    match v {
        Value::Null => JsonValue::Null,
        Value::Bool(b) => JsonValue::Bool(*b),
        Value::Number(n) => JsonValue::Number(match (n.as_u64(), n.as_i64()) {
            (Some(u), _) => JsonNumber::PosInt(u),
            (None, Some(i)) => JsonNumber::NegInt(i),
            (None, None) => JsonNumber::Float,
        }),
        Value::String(t) => JsonValue::Str(t.clone()),
        Value::Array(a) => JsonValue::Array(a.iter().map(to_json).collect()),
        Value::Object(m) => JsonValue::Object(m.iter().map(|(k, x)| (k.clone(), to_json(x))).collect()),
    }
}

/// `serde_json::from_str::<Value>(text)`, as a document of the library; the
/// result is the name [`json_of`] applied to the text.
#[verifier::external_body]
pub fn parse_json(text: &str) -> (r: Option<JsonValue>)
    ensures
        r == json_of(text@),
{
    serde_json::from_str::<Value>(text).ok().map(|v| to_json(&v))
}

} // verus!
