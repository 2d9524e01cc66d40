//! JSON values, as `serde_json` holds, reads and writes them.
//!
//! `serde_json::Value` is opaque to the verifier. `JsonView` is its meaning,
//! and each function here that calls `serde_json` says what the call does to
//! that meaning.
use serde_json::Value;
use vstd::prelude::*;

verus! {

/// A JSON value. A number without fraction and exponent that fits 64 bits is
/// an `Int`, but for `-0`; any other number is a `Float`, given by the bits of
/// its double.
pub enum JsonView {
    Null,
    Bool(bool),
    Int(int),
    Float(u64),
    Text(Seq<char>),
    Array(Seq<JsonView>),
    Object(Map<Seq<char>, JsonView>),
}

impl JsonView {
    /// The member `key` of an object. Other values have no members.
    pub open spec fn member(self, key: Seq<char>) -> Option<JsonView> {
        match self {
            JsonView::Object(members) => if members.contains_key(key) {
                Some(members[key])
            } else {
                None
            },
            _ => None,
        }
    }

    pub open spec fn as_text(self) -> Option<Seq<char>> {
        match self {
            JsonView::Text(s) => Some(s),
            _ => None,
        }
    }

    /// The value as a signed number of 64 bits.
    pub open spec fn as_int(self) -> Option<int> {
        match self {
            JsonView::Int(n) => if i64::MIN <= n <= i64::MAX {
                Some(n)
            } else {
                None
            },
            _ => None,
        }
    }

    /// Whether the value holds no other value and is no `Float`.
    pub open spec fn is_scalar(self) -> bool {
        self is Null || self is Bool || self is Int || self is Text
    }

    /// Whether the value is an object of scalars under plain keys.
    pub open spec fn is_record(self) -> bool {
        self matches JsonView::Object(members) && forall|k: Seq<char>| #[trigger]
            members.contains_key(k) ==> is_plain_key(k) && members[k].is_scalar()
    }

    /// Whether the value is an object of scalars and records under plain keys.
    pub open spec fn is_message(self) -> bool {
        self matches JsonView::Object(members) && forall|k: Seq<char>| #[trigger]
            members.contains_key(k) ==> is_plain_key(k) && (members[k].is_scalar()
                || members[k].is_record())
    }
}

/// Whether a key does not begin with a dollar sign. The keys that `serde_json`
/// keeps for itself do: it reads an object that begins with one of them as
/// something else.
pub open spec fn is_plain_key(key: Seq<char>) -> bool {
    key.len() == 0 || key[0] != '$'
}

/// `serde_json::Value`, the type of a JSON value.
#[verifier::external_type_specification]
#[verifier::external_body]
pub struct ExValue(Value);

/// What a `serde_json::Value` holds.
pub uninterp spec fn json_view(value: Value) -> JsonView;

/// What `serde_json::from_str` reads from a text, if it reads it at all.
pub uninterp spec fn json_parse(text: Seq<char>) -> Option<JsonView>;

/// What `to_string` writes for a value.
pub uninterp spec fn json_print(value: JsonView) -> Seq<char>;

/// Calls `serde_json::from_str`: whether it reads a value, and which, depends
/// on the text alone.
#[verifier::external_body]
pub(crate) fn json_from_text(text: &str) -> (value: Option<Value>)
    ensures
        value is Some <==> json_parse(text@) is Some,
        value matches Some(v) ==> json_parse(text@) == Some(json_view(v)),
{
    serde_json::from_str(text).ok()
}

/// Calls `Value::to_string`: what it writes depends on the value alone, and
/// reading back an object of scalars and records, all under plain keys, gives
/// the value that was written.
#[verifier::external_body]
pub(crate) fn json_to_text(value: &Value) -> (text: String)
    ensures
        text@ == json_print(json_view(*value)),
        json_view(*value).is_message() ==> json_parse(text@) == Some(json_view(*value)),
{
    value.to_string()
}

/// Calls `Value::get` with a string: the member of that name, where the value
/// is an object that has one.
#[verifier::external_body]
pub(crate) fn json_get<'a>(value: &'a Value, key: &str) -> (member: Option<&'a Value>)
    ensures
        member is Some <==> json_view(*value).member(key@) is Some,
        member matches Some(m) ==> json_view(*value).member(key@) == Some(json_view(*m)),
{
    value.get(key)
}

/// Calls `Value::as_str`: the text, where the value is one.
#[verifier::external_body]
pub(crate) fn json_as_str(value: &Value) -> (text: Option<&str>)
    ensures
        text is Some <==> json_view(*value).as_text() is Some,
        text matches Some(t) ==> json_view(*value).as_text() == Some(t@),
{
    value.as_str()
}

/// Calls `Value::as_i64`: the number, where the value is an integer that an
/// `i64` holds.
#[verifier::external_body]
pub(crate) fn json_as_i64(value: &Value) -> (number: Option<i64>)
    ensures
        number is Some <==> json_view(*value).as_int() is Some,
        number matches Some(n) ==> json_view(*value).as_int() == Some(n as int),
{
    value.as_i64()
}

/// `Value::Null`.
#[verifier::external_body]
pub(crate) fn json_null() -> (value: Value)
    ensures
        json_view(value) == JsonView::Null,
{
    Value::Null
}

/// Calls `Value::from` with a copy of a text.
#[verifier::external_body]
pub(crate) fn json_text(text: &str) -> (value: Value)
    ensures
        json_view(value) == JsonView::Text(text@),
{
    Value::from(text)
}

/// Calls `Value::from` with an `i64`.
#[verifier::external_body]
pub(crate) fn json_i64(number: i64) -> (value: Value)
    ensures
        json_view(value) == JsonView::Int(number as int),
{
    Value::from(number)
}

/// Calls `Value::from` with a `u64`.
#[verifier::external_body]
pub(crate) fn json_u64(number: u64) -> (value: Value)
    ensures
        json_view(value) == JsonView::Int(number as int),
{
    Value::from(number)
}

/// Calls `serde_json::Map::new`: an object without members.
#[verifier::external_body]
pub(crate) fn json_object() -> (value: Value)
    ensures
        json_view(value) == JsonView::Object(Map::empty()),
{
    Value::Object(serde_json::Map::new())
}

/// Calls `serde_json::Map::insert` on the members of an object: the member
/// `key` is then `member`, and the others are as before. A value that is no
/// object is handed back.
#[verifier::external_body]
pub(crate) fn json_with(value: Value, key: &str, member: Value) -> (new: Value)
    ensures
        match json_view(value) {
            JsonView::Object(members) => json_view(new) == JsonView::Object(
                members.insert(key@, json_view(member)),
            ),
            _ => new == value,
        },
{
    match value {
        Value::Object(mut members) => {
            members.insert(key.to_string(), member);
            Value::Object(members)
        },
        other => other,
    }
}

} // verus!
