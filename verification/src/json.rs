//! A JSON document as plain values, parsed from text by `serde_json`, and the
//! lookups the configuration readers make on it (the semantics of
//! `serde_json::Value`'s `get`, `as_array`, `as_str` and `as_u64`).
use vstd::prelude::*;
use crate::text::{chars_of, same_chars};

verus! {

/// One JSON value.
#[derive(Debug)]
pub enum JsonValue {
    Null,
    Bool(bool),
    /// A number, with its value when it is an integer that fits `u64`
    /// (`None` for negative or fractional numbers).
    Number(Option<u64>),
    Text(String),
    Array(Vec<JsonValue>),
    /// Members with distinct keys; a parsed document holds them in ascending
    /// order of key.
    Object(Vec<(String, JsonValue)>),
}

/// The value of the first member named `key`.
pub open spec fn member(entries: Seq<(String, JsonValue)>, key: Seq<char>) -> Option<JsonValue>
    decreases entries.len(),
{
    if entries.len() == 0 {
        None
    } else if entries[0].0@ == key {
        Some(entries[0].1)
    } else {
        member(entries.drop_first(), key)
    }
}

/// `value.get(key)`: the member of an object; `None` for anything else.
pub open spec fn spec_get(value: JsonValue, key: Seq<char>) -> Option<JsonValue> {
    match value {
        JsonValue::Object(entries) => member(entries@, key),
        _ => None,
    }
}

/// `value.as_u64()`.
pub open spec fn spec_as_u64(value: JsonValue) -> Option<u64> {
    match value {
        JsonValue::Number(n) => n,
        _ => None,
    }
}

/// Looks `key` up in an optional value, as a chain of `and_then(get)` does.
pub open spec fn spec_get_in(value: Option<JsonValue>, key: Seq<char>) -> Option<JsonValue> {
    match value {
        Some(v) => spec_get(v, key),
        None => None,
    }
}


impl JsonValue {
    /// The member `key` of an object; `None` when this is not an object or
    /// has no such member.
    pub fn get(&self, key: &str) -> (r: Option<&JsonValue>)
        ensures
            match r {
                Some(v) => spec_get(*self, key@) == Some(*v),
                None => spec_get(*self, key@) is None,
            },
    {
        match self {
            JsonValue::Object(entries) => {
                let wanted = chars_of(key);
                let mut i: usize = 0;
                assert(entries@.subrange(0, entries@.len() as int) =~= entries@);
                assert(spec_get(*self, key@) == member(entries@, key@));
                while i < entries.len()
                    invariant
                        i <= entries@.len(),
                        wanted@ == key@,
                        spec_get(*self, key@) == member(entries@, key@),
                        member(entries@, key@) == member(
                            entries@.subrange(i as int, entries@.len() as int),
                            key@,
                        ),
                    decreases entries.len() - i,
                {
                    let ghost rest = entries@.subrange(i as int, entries@.len() as int);
                    assert(rest.drop_first() =~= entries@.subrange(
                        i + 1,
                        entries@.len() as int,
                    ));
                    assert(rest[0] == entries@[i as int]);
                    let name = chars_of(entries[i].0.as_str());
                    if same_chars(name.as_slice(), wanted.as_slice()) {
                        assert(rest.len() > 0 && rest[0].0@ == key@);
                        assert(member(rest, key@) == Some(rest[0].1));
                        return Some(&entries[i].1);
                    }
                    i = i + 1;
                }
                None
            },
            _ => None,
        }
    }

    /// The items when this is an array.
    pub fn as_array(&self) -> (r: Option<&Vec<JsonValue>>)
        ensures
            match r {
                Some(items) => *self == JsonValue::Array(*items),
                None => !(*self is Array),
            },
    {
        match self {
            JsonValue::Array(items) => Some(items),
            _ => None,
        }
    }

    /// The text when this is a string.
    pub fn as_str(&self) -> (r: Option<&str>)
        ensures
            match r {
                Some(t) => *self matches JsonValue::Text(s) && s@ == t@,
                None => !(*self is Text),
            },
    {
        match self {
            JsonValue::Text(s) => Some(s.as_str()),
            _ => None,
        }
    }

    /// The value when this is a number that is an integer fitting `u64`.
    pub fn as_u64(&self) -> (r: Option<u64>)
        ensures
            r == spec_as_u64(*self),
    {
        match self {
            JsonValue::Number(n) => *n,
            _ => None,
        }
    }
}

#[verifier::external_type_specification]
#[verifier::external_body]
pub struct ExSerdeJsonValue(serde_json::Value);

/// The document `serde_json` parses from a text, or its error message.
pub uninterp spec fn json_parse(text: Seq<char>) -> Result<JsonValue, Seq<char>>;

/// `serde_json::from_str::<serde_json::Value>`: parses a JSON text into a
/// document, converted variant by variant into `JsonValue`, or gives the
/// parser's error message (`serde_json::Error`'s `Display`). Claimed: the
/// outcome is `json_parse` of the text, a function of the text alone; what
/// that document is for a given text is not stated.
#[verifier::external_body]
pub(crate) fn parse_json(text: &str) -> (r: Result<JsonValue, String>)
    ensures
        json_parse(text@) == match r {
            Ok(v) => Ok::<JsonValue, Seq<char>>(v),
            Err(e) => Err::<JsonValue, Seq<char>>(e@),
        },
{
    match serde_json::from_str::<serde_json::Value>(text) {
        Ok(value) => Ok(json_tree(value)),
        Err(error) => Err(error.to_string()),
    }
}

/// Converts a parsed `serde_json::Value` one for one: each variant to the
/// variant of the same name, a number to its `serde_json::Number::as_u64`,
/// arrays and objects member by member, in the order the value holds them.
#[verifier::external_body]
fn json_tree(value: serde_json::Value) -> JsonValue {
    match value {
        serde_json::Value::Null => JsonValue::Null,
        serde_json::Value::Bool(b) => JsonValue::Bool(b),
        serde_json::Value::Number(n) => JsonValue::Number(n.as_u64()),
        serde_json::Value::String(s) => JsonValue::Text(s),
        serde_json::Value::Array(items) => JsonValue::Array(items.into_iter().map(json_tree).collect()),
        serde_json::Value::Object(members) => JsonValue::Object(
            members.into_iter().map(|(key, value)| (key, json_tree(value))).collect(),
        ),
    }
}

} // verus!
