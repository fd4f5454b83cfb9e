//! The JSON documents that PowerShell scripts print, as plain values.

use vstd::prelude::*;

verus! {

/// A JSON document as `serde_json` reads it.
#[verifier::external_type_specification]
#[verifier::external_body]
pub struct ExSerdeJsonValue(serde_json::Value);

/// What `serde_json::from_str` reads from `text`, as a `JsonValue`: none when the text
/// is not JSON.
pub uninterp spec fn json_text(text: Seq<char>) -> Option<JsonValue>;

/// A value read by `serde_json` as a `JsonValue`: each variant into its own, an
/// integer that fits in `i128` as `Int` and any other number as its text.
#[verifier::external_body]
fn json_of_serde(v: serde_json::Value) -> JsonValue {
    match v {
        serde_json::Value::Null => JsonValue::Null,
        serde_json::Value::Bool(b) => JsonValue::Bool(b),
        serde_json::Value::Number(n) => match n.as_i128() {
            Some(i) => JsonValue::Int(i),
            None => JsonValue::Decimal(n.to_string()),
        },
        serde_json::Value::String(s) => JsonValue::Str(s),
        serde_json::Value::Array(a) => JsonValue::Array(a.into_iter().map(json_of_serde).collect()),
        serde_json::Value::Object(o) => JsonValue::Object(o.into_iter().map(|(k, v)| (k, json_of_serde(v))).collect()),
    }
}

/// Calls `serde_json::from_str` on `text` and converts what it read. The result is
/// named `json_text`, a function of the text alone; the JSON grammar and the order in
/// which `serde_json` keeps an object's members are not stated here.
#[verifier::external_body]
pub(crate) fn parse_json(text: &str) -> (r: Option<JsonValue>)
    ensures
        r == json_text(text@),
{
    serde_json::from_str::<serde_json::Value>(text).ok().map(json_of_serde)
}

/// A JSON value. Objects keep their members in the order they were read, each key once.
pub enum JsonValue {
    Null,
    Bool(bool),
    /// A number written without fraction or exponent.
    Int(i128),
    /// Any other number, as its text.
    Decimal(String),
    Str(String),
    Array(Vec<JsonValue>),
    Object(Vec<(String, JsonValue)>),
}

/// The value of the first member of `members` whose key is `key`.
pub open spec fn lookup(members: Seq<(String, JsonValue)>, key: Seq<char>) -> Option<JsonValue>
    decreases members.len(),
{
    if members.len() == 0 {
        None
    } else if members[0].0@ == key {
        Some(members[0].1)
    } else {
        lookup(members.drop_first(), key)
    }
}

/// The member `key` of `v` when `v` is an object that has one (`Value::get`).
pub open spec fn field(v: JsonValue, key: Seq<char>) -> Option<JsonValue> {
    match v {
        JsonValue::Object(m) => lookup(m@, key),
        _ => None,
    }
}

/// The text of the member `key` of `v`, or the empty text when there is no such
/// member or it is not a string.
pub open spec fn str_field(v: JsonValue, key: Seq<char>) -> Seq<char> {
    match field(v, key) {
        Some(JsonValue::Str(s)) => s@,
        _ => Seq::empty(),
    }
}

/// The text of the member `key` of `v` when it is a string.
pub open spec fn opt_str_field(v: JsonValue, key: Seq<char>) -> Option<Seq<char>> {
    match field(v, key) {
        Some(JsonValue::Str(s)) => Some(s@),
        _ => None,
    }
}

/// The member `key` of `v` when it is a boolean.
pub open spec fn bool_field(v: JsonValue, key: Seq<char>) -> Option<bool> {
    match field(v, key) {
        Some(JsonValue::Bool(b)) => Some(b),
        _ => None,
    }
}

/// The member `key` of `v` when it is an integer that fits in `i64` (`Value::as_i64`).
pub open spec fn i64_field(v: JsonValue, key: Seq<char>) -> Option<i64> {
    match field(v, key) {
        Some(JsonValue::Int(n)) => if i64::MIN <= n && n <= i64::MAX {
            Some(n as i64)
        } else {
            None
        },
        _ => None,
    }
}

/// The items that `v` stands for when a list is expected: an array gives its items,
/// `null` gives none, and any other value is a list of itself.
pub open spec fn array_items(v: JsonValue) -> Seq<JsonValue> {
    match v {
        JsonValue::Array(a) => a@,
        JsonValue::Null => Seq::empty(),
        other => seq![other],
    }
}

/// Normalises a value to a list: PowerShell prints a lone object where a one-item
/// array was meant.
pub fn as_array(v: JsonValue) -> (r: Vec<JsonValue>)
    ensures
        r@ == array_items(v),
{
    match v {
        JsonValue::Array(a) => a,
        JsonValue::Null => Vec::new(),
        other => {
            let mut r = Vec::new();
            r.push(other);
            r
        },
    }
}

/// The member `key` of `v`, when `v` is an object that has one.
pub fn get<'a>(v: &'a JsonValue, key: &str) -> (r: Option<&'a JsonValue>)
    ensures
        match r {
            Some(x) => field(*v, key@) == Some(*x),
            None => field(*v, key@) is None,
        },
{
    match v {
        JsonValue::Object(m) => {
            let mut i: usize = 0;
            assert(m@.skip(0) =~= m@);
            while i < m.len()
                invariant
                    i <= m@.len(),
                    *v == JsonValue::Object(*m),
                    lookup(m@, key@) == lookup(m@.skip(i as int), key@),
                decreases m@.len() - i,
            {
                assert(m@.skip(i as int).drop_first() =~= m@.skip(i + 1));
                assert(m@.skip(i as int)[0] == m@[i as int]);
                if crate::text::text_eq(m[i].0.as_str(), key) {
                    assert(lookup(m@.skip(i as int), key@) == Some(m@[i as int].1));
                    return Some(&m[i].1);
                }
                i = i + 1;
            }
            None
        },
        _ => None,
    }
}

/// The text of the member `key` of `v`, or the empty text.
pub fn s(v: &JsonValue, key: &str) -> (r: String)
    ensures
        r@ == str_field(*v, key@),
{
    match get(v, key) {
        Some(JsonValue::Str(t)) => t.clone(),
        _ => String::new(),
    }
}

/// The text of the member `key` of `v` when it is a string.
pub fn opt_str(v: &JsonValue, key: &str) -> (r: Option<String>)
    ensures
        match r {
            Some(t) => opt_str_field(*v, key@) == Some(t@),
            None => opt_str_field(*v, key@) is None,
        },
{
    match get(v, key) {
        Some(JsonValue::Str(t)) => Some(t.clone()),
        _ => None,
    }
}

/// The member `key` of `v` when it is a boolean.
pub fn opt_bool(v: &JsonValue, key: &str) -> (r: Option<bool>)
    ensures
        r == bool_field(*v, key@),
{
    match get(v, key) {
        Some(JsonValue::Bool(b)) => Some(*b),
        _ => None,
    }
}

/// The member `key` of `v` when it is an integer that fits in `i64`.
pub fn opt_i64(v: &JsonValue, key: &str) -> (r: Option<i64>)
    ensures
        r == i64_field(*v, key@),
{
    match get(v, key) {
        Some(JsonValue::Int(n)) => if i64::MIN as i128 <= *n && *n <= i64::MAX as i128 {
            Some(*n as i64)
        } else {
            None
        },
        _ => None,
    }
}

} // verus!
