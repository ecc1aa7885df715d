//! JSON values of `serde_json` and the mathematical tree that each of them holds.

use vstd::prelude::*;

verus! {

/// A JSON value as a tree. `Float` holds the bits of the number.
pub enum Json {
    Null,
    Bool(bool),
    Unsigned(u64),
    Negative(i64),
    Float(u64),
    Text(Seq<char>),
    List(Seq<Json>),
    Record(Map<Seq<char>, Json>),
}

/// A text nested no deeper than this is read by `serde_json`, whose own limit is above it.
pub const MAX_DEPTH: u32 = 100;

impl Json {
    /// The value of a field; `Null` where there is none.
    pub open spec fn field(self, key: Seq<char>) -> Json {
        match self {
            Json::Record(m) => if m.dom().contains(key) {
                m[key]
            } else {
                Json::Null
            },
            _ => Json::Null,
        }
    }

    /// The value at a position; `Null` where there is none.
    pub open spec fn item(self, i: int) -> Json {
        match self {
            Json::List(s) => if 0 <= i < s.len() {
                s[i]
            } else {
                Json::Null
            },
            _ => Json::Null,
        }
    }

    /// The text that the value is.
    pub open spec fn text(self) -> Option<Seq<char>> {
        match self {
            Json::Text(t) => Some(t),
            _ => None,
        }
    }

    /// The text that the value is, or the empty text.
    pub open spec fn text_or_empty(self) -> Seq<char> {
        match self {
            Json::Text(t) => t,
            _ => Seq::empty(),
        }
    }

    /// A value without floats, with at most `depth` lists and records inside one another.
    pub open spec fn sturdy(self, depth: nat) -> bool
        decreases depth,
    {
        match self {
            Json::Float(_) => false,
            Json::List(s) => depth > 0 && forall|i: int|
                0 <= i < s.len() ==> (#[trigger] s[i]).sturdy((depth - 1) as nat),
            Json::Record(m) => depth > 0 && forall|k: Seq<char>|
                m.dom().contains(k) ==> (#[trigger] m[k]).sturdy((depth - 1) as nat),
            _ => true,
        }
    }

    /// A value that is not too deep for one depth is not too deep for a greater one.
    pub proof fn sturdy_grows(self, depth: nat, more: nat)
        requires
            self.sturdy(depth),
            depth <= more,
        ensures
            self.sturdy(more),
        decreases depth,
    {
        match self {
            Json::List(s) => {
                assert forall|i: int| 0 <= i < s.len() implies (#[trigger] s[i]).sturdy(
                    (more - 1) as nat,
                ) by {
                    s[i].sturdy_grows((depth - 1) as nat, (more - 1) as nat);
                }
            },
            Json::Record(m) => {
                assert forall|k: Seq<char>| m.dom().contains(k) implies (#[trigger] m[k]).sturdy(
                    (more - 1) as nat,
                ) by {
                    m[k].sturdy_grows((depth - 1) as nat, (more - 1) as nat);
                }
            },
            _ => {},
        }
    }
}

// ---------------------------------------------------------------- trusted items

/// A JSON value of `serde_json`.
#[verifier::external_type_specification]
#[verifier::external_body]
pub struct ExValue(serde_json::Value);

/// Why `serde_json` could not read a text.
#[verifier::external_type_specification]
#[verifier::external_body]
pub struct ExError(serde_json::Error);

/// The tree that a `serde_json::Value` holds.
pub uninterp spec fn json_view(v: serde_json::Value) -> Json;

/// What `serde_json::from_str` makes of a text: a value, or nothing where the text is not
/// JSON.
pub uninterp spec fn json_parse(text: Seq<char>) -> Option<Json>;

/// The text that `serde_json` writes for a value.
pub uninterp spec fn json_text(j: Json) -> Seq<char>;

/// The trees of a list of values.
pub open spec fn json_views(v: Seq<serde_json::Value>) -> Seq<Json> {
    Seq::new(v.len(), |i: int| json_view(v[i]))
}

/// No two fields have one key.
pub open spec fn distinct_keys(fields: Seq<(String, serde_json::Value)>) -> bool {
    forall|i: int, j: int|
        0 <= i < j < fields.len() ==> (#[trigger] fields[i]).0@ != (#[trigger] fields[j]).0@
}

/// The record that a list of fields with distinct keys makes.
pub open spec fn record_of(fields: Seq<(String, serde_json::Value)>) -> Map<Seq<char>, Json>
    decreases fields.len(),
{
    if fields.len() == 0 {
        Map::empty()
    } else {
        record_of(fields.drop_last()).insert(fields.last().0@, json_view(fields.last().1))
    }
}

/// `serde_json::from_str::<Value>` reads a text as JSON. Whether it succeeds, and the value,
/// depend on the text alone.
#[verifier::external_body]
fn from_text(text: &str) -> (r: Result<serde_json::Value, serde_json::Error>)
    ensures
        match r {
            Ok(v) => json_parse(text@) == Some(json_view(v)),
            Err(_) => json_parse(text@) is None,
        },
{
    serde_json::from_str::<serde_json::Value>(text)
}

/// `Value::as_str` gives the text of a JSON string and nothing for any other value.
pub assume_specification[ serde_json::Value::as_str ](v: &serde_json::Value) -> (r: Option<&str>)
    ensures
        match r {
            Some(t) => json_view(*v) == Json::Text(t@),
            None => !(json_view(*v) is Text),
        },
;

/// `Value::as_bool` gives the value of a JSON boolean and nothing for any other value.
pub assume_specification[ serde_json::Value::as_bool ](v: &serde_json::Value) -> (r: Option<bool>)
    ensures
        match r {
            Some(b) => json_view(*v) == Json::Bool(b),
            None => !(json_view(*v) is Bool),
        },
;

/// `Value::as_u64` gives a number that was written as a whole number from 0 to 2^64 - 1, and
/// nothing for any other value.
pub assume_specification[ serde_json::Value::as_u64 ](v: &serde_json::Value) -> (r: Option<u64>)
    ensures
        match r {
            Some(n) => json_view(*v) == Json::Unsigned(n),
            None => !(json_view(*v) is Unsigned),
        },
;

/// `Value::as_array` gives the members of a JSON array and nothing for any other value.
pub assume_specification[ serde_json::Value::as_array ](v: &serde_json::Value) -> (r: Option<
    &Vec<serde_json::Value>,
>)
    ensures
        match r {
            Some(a) => json_view(*v) == Json::List(json_views(a@)),
            None => !(json_view(*v) is List),
        },
;

/// Indexing a `Value` by a string gives the field of that name, and `Null` where the value is
/// no object or has no such field.
#[verifier::external_body]
pub(crate) fn field<'a>(v: &'a serde_json::Value, key: &str) -> (r: &'a serde_json::Value)
    ensures
        json_view(*r) == json_view(*v).field(key@),
{
    &v[key]
}

/// Indexing a `Value` by a number gives the member at that position, and `Null` where the
/// value is no array or is too short.
#[verifier::external_body]
pub(crate) fn item(v: &serde_json::Value, i: usize) -> (r: &serde_json::Value)
    ensures
        json_view(*r) == json_view(*v).item(i as int),
{
    &v[i]
}

/// `Value::String` holds a text.
#[verifier::external_body]
pub(crate) fn text(t: String) -> (r: serde_json::Value)
    ensures
        json_view(r) == Json::Text(t@),
{
    serde_json::Value::String(t)
}

/// `Value::from` of an unsigned integer holds that number.
#[verifier::external_body]
pub(crate) fn number(n: u64) -> (r: serde_json::Value)
    ensures
        json_view(r) == Json::Unsigned(n),
{
    serde_json::Value::from(n)
}

/// `Value::Array` holds its members in order.
#[verifier::external_body]
pub(crate) fn list(members: Vec<serde_json::Value>) -> (r: serde_json::Value)
    ensures
        json_view(r) == Json::List(json_views(members@)),
{
    serde_json::Value::Array(members)
}

/// `serde_json::Map` collects fields with distinct keys, each under its key; `Value::Object` holds
/// the map.
#[verifier::external_body]
pub(crate) fn record(fields: Vec<(String, serde_json::Value)>) -> (r: serde_json::Value)
    requires
        distinct_keys(fields@),
    ensures
        json_view(r) == Json::Record(record_of(fields@)),
{
    serde_json::Value::Object(fields.into_iter().collect())
}

/// `Value::to_string` writes the value as compact JSON, with the fields of each object in the
/// order of their keys, so the text depends on the value alone. A value without floats, nested
/// no deeper than the reader follows, is read back as it was written.
#[verifier::external_body]
pub(crate) fn to_text(v: &serde_json::Value) -> (r: String)
    ensures
        r@ == json_text(json_view(*v)),
        json_view(*v).sturdy(MAX_DEPTH as nat) ==> json_parse(r@) == Some(json_view(*v)),
{
    v.to_string()
}

// ---------------------------------------------------------------- reading

/// Reads a text as JSON.
pub fn read_json(s: &str) -> (r: Option<serde_json::Value>)
    ensures
        match r {
            Some(v) => json_parse(s@) == Some(json_view(v)),
            None => json_parse(s@) is None,
        },
{
    match from_text(s) {
        Ok(v) => Some(v),
        Err(_) => None,
    }
}

/// The text of a field, or the empty text.
pub fn field_text(v: &serde_json::Value, key: &str) -> (r: String)
    ensures
        r@ == json_view(*v).field(key@).text_or_empty(),
{
    match field(v, key).as_str() {
        Some(t) => t.to_owned(),
        None => String::new(),
    }
}

} // verus!
