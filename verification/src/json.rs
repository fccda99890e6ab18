//! A JSON document as plain values, and the lookups the inventory sync makes
//! in it.
use vstd::prelude::*;
use crate::text::str_equal;

verus! {

/// A JSON value. Object members keep the order in which the document's map
/// yields them; numbers keep their text.
pub enum JsonValue {
    Null,
    Bool(bool),
    Number(String),
    String(String),
    Array(Vec<JsonValue>),
    Object(Vec<(String, JsonValue)>),
}

/// The value of the first member named `key`.
pub open spec fn member_lookup(members: Seq<(String, JsonValue)>, key: Seq<char>) -> Option<
    JsonValue,
>
    decreases members.len(),
{
    if members.len() == 0 {
        None
    } else if members[0].0@ == key {
        Some(members[0].1)
    } else {
        member_lookup(members.drop_first(), key)
    }
}

/// `Value::get` with a string key: the member `key` of an object, `None`
/// for a missing member or a value that is no object.
pub open spec fn json_get(value: JsonValue, key: Seq<char>) -> Option<JsonValue> {
    match value {
        JsonValue::Object(members) => member_lookup(members@, key),
        _ => None,
    }
}

/// `Value::as_str` on an optional value: the text of a JSON string.
pub open spec fn json_text(value: Option<JsonValue>) -> Option<Seq<char>> {
    match value {
        Some(JsonValue::String(text)) => Some(text@),
        _ => None,
    }
}

/// `Value::as_array` on an optional value: the items of a JSON array.
pub open spec fn json_items(value: Option<JsonValue>) -> Option<Seq<JsonValue>> {
    match value {
        Some(JsonValue::Array(items)) => Some(items@),
        _ => None,
    }
}

impl JsonValue {
    /// The member `key` of an object (`Value::get`).
    pub fn get(&self, key: &str) -> (member: Option<&JsonValue>)
        ensures
            match member {
                Some(found) => json_get(*self, key@) == Some(*found),
                None => json_get(*self, key@) is None,
            },
    {
        match self {
            JsonValue::Object(members) => {
                let mut i: usize = 0;
                assert(members@.skip(0) =~= members@);
                while i < members.len()
                    invariant
                        i <= members@.len(),
                        *self == JsonValue::Object(*members),
                        member_lookup(members@, key@) == member_lookup(
                            members@.skip(i as int),
                            key@,
                        ),
                    decreases members@.len() - i,
                {
                    assert(members@.skip(i as int).drop_first() =~= members@.skip(i + 1));
                    if str_equal(members[i].0.as_str(), key) {
                        return Some(&members[i].1);
                    }
                    i = i + 1;
                }
                None
            },
            _ => None,
        }
    }

    /// Whether an object has a member `key` (`Map::contains_key`).
    pub fn contains_key(&self, key: &str) -> (found: bool)
        ensures
            found == json_get(*self, key@) is Some,
    {
        self.get(key).is_some()
    }

    /// The text of a JSON string (`Value::as_str`).
    pub fn as_str(&self) -> (text: Option<&str>)
        ensures
            match text {
                Some(t) => json_text(Some(*self)) == Some(t@),
                None => json_text(Some(*self)) is None,
            },
    {
        match self {
            JsonValue::String(text) => Some(text.as_str()),
            _ => None,
        }
    }

    /// The items of a JSON array (`Value::as_array`).
    pub fn as_array(&self) -> (items: Option<&Vec<JsonValue>>)
        ensures
            match items {
                Some(found) => json_items(Some(*self)) == Some(found@),
                None => json_items(Some(*self)) is None,
            },
    {
        match self {
            JsonValue::Array(items) => Some(items),
            _ => None,
        }
    }
}

#[verifier::external_type_specification]
#[verifier::external_body]
pub struct ExSerdeJsonValue(serde_json::Value);

/// The document that `serde_json` reads from `bytes`, as plain values;
/// `None` where the bytes are not one JSON document.
pub uninterp spec fn parsed_document(bytes: Seq<u8>) -> Option<JsonValue>;

/// The message of the error that `serde_json` reports for `bytes` where they
/// are not one JSON document.
pub uninterp spec fn parse_error_text(bytes: Seq<u8>) -> Seq<char>;

/// The plain-value copy of a `serde_json::Value`, member for member: numbers
/// as their text, object members in the order the map yields them. Nothing
/// is promised of the copy here; `parse_document` states what it parses to.
#[verifier::external_body]
fn json_from_serde(value: serde_json::Value) -> JsonValue {
    match value {
        serde_json::Value::Null => JsonValue::Null,
        serde_json::Value::Bool(flag) => JsonValue::Bool(flag),
        serde_json::Value::Number(number) => JsonValue::Number(number.to_string()),
        serde_json::Value::String(text) => JsonValue::String(text),
        serde_json::Value::Array(items) => JsonValue::Array(items.into_iter().map(json_from_serde).collect()),
        serde_json::Value::Object(members) => JsonValue::Object(members.into_iter().map(|(key, member)| (key, json_from_serde(member))).collect()),
    }
}

/// `serde_json::from_slice::<serde_json::Value>`: reads `bytes` as one JSON
/// document. The contract names the document and the error message, both
/// functions of the bytes alone; what they are for given bytes is
/// `serde_json`'s grammar and is not written out here.
#[verifier::external_body]
pub fn parse_document(bytes: &[u8]) -> (document: Result<JsonValue, String>)
    ensures
        match document {
            Ok(value) => parsed_document(bytes@) == Some(value),
            Err(text) => parsed_document(bytes@) is None && text@ == parse_error_text(bytes@),
        },
{
    match serde_json::from_slice::<serde_json::Value>(bytes) {
        Ok(value) => Ok(json_from_serde(value)),
        Err(error) => Err(error.to_string()),
    }
}

} // verus!
