//! A JSON value as the RPC logic sees it.

use vstd::prelude::*;

verus! {

/// A JSON value. A number is held as the text that denotes it in JSON, and an
/// object as its members in order.
#[derive(Debug)]
pub enum JsonValue {
    Null,
    Bool(bool),
    Number(String),
    String(String),
    Array(Vec<JsonValue>),
    Object(Vec<(String, JsonValue)>),
}

/// No two members have the same key.
pub open spec fn has_unique_keys(members: Seq<(String, JsonValue)>) -> bool {
    forall|i: int, j: int| 0 <= i < j < members.len() ==> members[i].0@ != members[j].0@
}

impl JsonValue {
    /// A JSON value as JSON allows it: no object, at any depth, has two
    /// members with the same key.
    pub open spec fn is_well_formed(self) -> bool
        decreases self,
    {
        match self {
            JsonValue::Array(items) => forall|i: int|
                0 <= i < items@.len() ==> (#[trigger] items@[i]).is_well_formed(),
            JsonValue::Object(members) => {
                &&& has_unique_keys(members@)
                &&& forall|i: int|
                    0 <= i < members@.len() ==> (#[trigger] members@[i]).1.is_well_formed()
            },
            _ => true,
        }
    }
}

/// `value` is the JSON string `text`.
pub open spec fn is_json_text(value: JsonValue, text: Seq<char>) -> bool {
    value matches JsonValue::String(s) && s@ == text
}

/// `value` is the JSON number written `digits`.
pub open spec fn is_json_number(value: JsonValue, digits: Seq<char>) -> bool {
    value matches JsonValue::Number(n) && n@ == digits
}

/// `value` is an empty JSON array.
pub open spec fn is_empty_json_array(value: JsonValue) -> bool {
    value matches JsonValue::Array(items) && items@.len() == 0
}

/// `value` is an empty JSON object.
pub open spec fn is_empty_json_object(value: JsonValue) -> bool {
    value matches JsonValue::Object(members) && members@.len() == 0
}

/// The member `member` has the key `key`.
pub open spec fn has_key(member: (String, JsonValue), key: Seq<char>) -> bool {
    member.0@ == key
}

impl JsonValue {
    /// The JSON string with the given text.
    pub fn text(s: &str) -> (value: JsonValue)
        ensures
            is_json_text(value, s@),
    {
        JsonValue::String(s.to_owned())
    }

    /// The JSON number written `digits`.
    pub fn number(digits: &str) -> (value: JsonValue)
        ensures
            is_json_number(value, digits@),
    {
        JsonValue::Number(digits.to_owned())
    }

    /// An empty JSON object.
    pub fn empty_object() -> (value: JsonValue)
        ensures
            is_empty_json_object(value),
    {
        JsonValue::Object(Vec::new())
    }

    /// An empty JSON array.
    pub fn empty_array() -> (value: JsonValue)
        ensures
            is_empty_json_array(value),
    {
        JsonValue::Array(Vec::new())
    }
}

/// A member of a JSON object.
pub fn member(key: &str, value: JsonValue) -> (m: (String, JsonValue))
    ensures
        m.0@ == key@,
        m.1 == value,
{
    (key.to_owned(), value)
}

} // verus!
