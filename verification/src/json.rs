//! JSON documents as values of the library, and the decoder that reads them.

use vstd::prelude::*;
use crate::errors::Position;
use crate::text::{chars_of, same_chars};

verus! {

/// A JSON value as `serde_json` holds it.
#[verifier::external_type_specification]
#[verifier::external_body]
pub struct ExJsonValue(serde_json::Value);

/// A JSON value.
#[derive(Debug, PartialEq)]
pub enum Json {
    /// `null`.
    Null,
    /// `true` or `false`.
    Bool(bool),
    /// A number, as the decimal text that stands for it.
    Number(String),
    /// A string.
    Text(String),
    /// An array, with its items in order.
    Array(Vec<Json>),
    /// An object, with its members in order, each under its key.
    Object(Vec<(String, Json)>),
}

/// The value of the first member at or after `from` whose key is `key`.
pub open spec fn find_member(members: Seq<(String, Json)>, key: Seq<char>, from: int) -> Option<
    Json,
>
    decreases members.len() - from,
{
    if from < 0 || from >= members.len() {
        None
    } else if members[from].0@ == key {
        Some(members[from].1)
    } else {
        find_member(members, key, from + 1)
    }
}

impl Json {
    /// The characters of this value, if it is a string.
    pub open spec fn text(self) -> Option<Seq<char>> {
        match self {
            Json::Text(t) => Some(t@),
            _ => None,
        }
    }

    /// The items of this value, if it is an array.
    pub open spec fn items(self) -> Option<Seq<Json>> {
        match self {
            Json::Array(v) => Some(v@),
            _ => None,
        }
    }

    /// The value that this object holds under `key`: that of the first member
    /// with that key. `None` where this is no object or has no such member.
    pub open spec fn get(self, key: Seq<char>) -> Option<Json> {
        match self {
            Json::Object(members) => find_member(members@, key, 0),
            _ => None,
        }
    }

    /// Whether this value is an object.
    pub fn is_object(&self) -> (b: bool)
        ensures
            b == (*self is Object),
    {
        match self {
            Json::Object(_) => true,
            _ => false,
        }
    }

    /// The string that this value is, if it is one.
    pub fn as_text(&self) -> (found: Option<&String>)
        ensures
            match found {
                Some(t) => self.text() == Some(t@),
                None => self.text() is None,
            },
    {
        match self {
            Json::Text(t) => Some(t),
            _ => None,
        }
    }

    /// The items of this value, if it is an array.
    pub fn as_array(&self) -> (found: Option<&Vec<Json>>)
        ensures
            match found {
                Some(v) => self.items() == Some(v@),
                None => self.items() is None,
            },
    {
        match self {
            Json::Array(v) => Some(v),
            _ => None,
        }
    }

    /// The value under `key`, if this value is an object that has such a member.
    pub fn member(&self, key: &str) -> (found: Option<&Json>)
        ensures
            match found {
                Some(value) => self.get(key@) == Some(*value),
                None => self.get(key@) is None,
            },
    {
        match self {
            Json::Object(members) => {
                let wanted = chars_of(key);
                let mut i: usize = 0;
                while i < members.len()
                    invariant
                        i <= members.len(),
                        wanted@ == key@,
                        self.get(key@) == find_member(members@, key@, i as int),
                    decreases members.len() - i,
                {
                    let name = chars_of(members[i].0.as_str());
                    if same_chars(&name, &wanted) {
                        return Some(&members[i].1);
                    }
                    i += 1;
                }
                None
            },
            _ => None,
        }
    }
}

/// What `serde_json` makes of `bytes`: the value that they spell, or, where they
/// are no JSON document, the place at which it gives up.
pub uninterp spec fn json_document(bytes: Seq<u8>) -> Result<Json, Position>;

/// Rebuilds a value of `serde_json` as a `Json`, variant by variant. A number is
/// kept as the text that `serde_json` prints for it, an object's members in the
/// order in which its map hands them out.
#[verifier::external_body]
fn json_of_value(value: serde_json::Value) -> Json {
    match value {
        serde_json::Value::Null => Json::Null,
        serde_json::Value::Bool(b) => Json::Bool(b),
        serde_json::Value::Number(n) => Json::Number(n.to_string()),
        serde_json::Value::String(s) => Json::Text(s),
        serde_json::Value::Array(items) => Json::Array(
            items.into_iter().map(json_of_value).collect(),
        ),
        serde_json::Value::Object(map) => Json::Object(
            map.into_iter().map(|(k, v)| (k, json_of_value(v))).collect(),
        ),
    }
}

/// `serde_json::from_slice`, asked for a `serde_json::Value`. The result is what
/// `serde_json` makes of the bytes: the document, rebuilt as a `Json`, or the
/// line and the column that its error reports.
#[verifier::external_body]
pub(crate) fn decode(bytes: &[u8]) -> (r: Result<Json, Position>)
    ensures
        r == json_document(bytes@),
{
    match serde_json::from_slice::<serde_json::Value>(bytes) {
        Ok(value) => Ok(json_of_value(value)),
        Err(e) => Err(Position { line: e.line(), column: e.column() }),
    }
}

} // verus!
