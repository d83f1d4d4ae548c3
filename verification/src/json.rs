//! JSON documents as plain values. Reading a document from text and writing
//! a string as a JSON literal are the work of `serde_json`; what a document
//! holds is then open to verified code.

use vstd::prelude::*;
use vstd::string::*;

verus! {

/// What a JSON number offers to integer readers. A number that is no integer
/// offers neither.
#[derive(Clone, Copy, Debug, PartialEq, Eq)]
pub struct JsonNumber {
    /// The number as an unsigned integer, where it is one.
    pub unsigned: Option<u64>,
    /// The number as a signed integer, where it is one.
    pub signed: Option<i64>,
}

/// A JSON document.
#[derive(Debug, PartialEq, Eq)]
pub enum Json {
    Null,
    Bool(bool),
    Number(JsonNumber),
    Text(String),
    Array(Vec<Json>),
    /// The members of an object, each a key with its value.
    Object(Vec<(String, Json)>),
}

/// A JSON document as a mathematical value.
pub enum JsonValue {
    Null,
    Bool(bool),
    Number(JsonNumber),
    Text(Seq<char>),
    Array(Seq<JsonValue>),
    Object(Seq<(Seq<char>, JsonValue)>),
}

/// The value of the first of `members` whose key is `key`.
pub open spec fn member_of(members: Seq<(Seq<char>, JsonValue)>, key: Seq<char>) -> Option<
    JsonValue,
>
    decreases members.len(),
{
    if members.len() == 0 {
        None
    } else if members[0].0 == key {
        Some(members[0].1)
    } else {
        member_of(members.drop_first(), key)
    }
}

impl JsonValue {
    /// The member `key` of an object; nothing has a member but an object.
    pub open spec fn member(self, key: Seq<char>) -> Option<JsonValue> {
        match self {
            JsonValue::Object(members) => member_of(members, key),
            _ => None,
        }
    }
}

impl Json {
    /// The document as a mathematical value.
    pub open spec fn value(&self) -> JsonValue
        decreases self,
    {
        match self {
            Json::Null => JsonValue::Null,
            Json::Bool(b) => JsonValue::Bool(*b),
            Json::Number(n) => JsonValue::Number(*n),
            Json::Text(s) => JsonValue::Text(s@),
            Json::Array(items) => JsonValue::Array(
                Seq::new(
                    items@.len(),
                    |i: int|
                        if 0 <= i < items@.len() {
                            items[i].value()
                        } else {
                            JsonValue::Null
                        },
                ),
            ),
            Json::Object(members) => JsonValue::Object(
                Seq::new(
                    members@.len(),
                    |i: int|
                        if 0 <= i < members@.len() {
                            (members[i].0@, members[i].1.value())
                        } else {
                            (Seq::empty(), JsonValue::Null)
                        },
                ),
            ),
        }
    }
}

impl View for Json {
    type V = JsonValue;

    open spec fn view(&self) -> JsonValue {
        self.value()
    }
}

/// The error that `serde_json` reports for text that is no JSON document.
#[verifier::external_type_specification]
#[verifier::external_body]
pub struct ExJsonError(serde_json::Error);

/// A document as `serde_json` holds it.
#[verifier::external_type_specification]
#[verifier::external_body]
pub struct ExJsonDocument(serde_json::Value);

/// The document that `serde_json` reads from `text`, where `text` is one.
pub uninterp spec fn json_document(text: Seq<char>) -> Option<JsonValue>;

/// What a document of `serde_json` holds.
pub uninterp spec fn json_content(document: serde_json::Value) -> JsonValue;

/// The JSON string literal that `serde_json` writes for `text`: the text
/// between double quotes, with the characters escaped that JSON asks for.
pub uninterp spec fn json_string_literal(text: Seq<char>) -> Seq<char>;

/// `serde_json::from_str`, for a `serde_json::Value`: the document that the
/// whole of `text` denotes, or the error where it denotes none.
#[verifier::external_body]
fn read_document(text: &str) -> (r: Result<serde_json::Value, serde_json::Error>)
    ensures
        r matches Ok(document) ==> json_document(text@) == Some(json_content(document)),
        r is Err ==> json_document(text@) is None,
{
    serde_json::from_str::<serde_json::Value>(text)
}

/// Moves a `serde_json::Value` into a `Json`, node for node: the members of an
/// object in the order in which `serde_json` walks them, and of a number what
/// `Number::as_u64` and `Number::as_i64` say.
#[verifier::external_body]
fn json_of_document(document: serde_json::Value) -> (json: Json)
    ensures
        json@ == json_content(document),
{
    match document {
        serde_json::Value::Null => Json::Null,
        serde_json::Value::Bool(b) => Json::Bool(b),
        serde_json::Value::Number(n) => Json::Number(
            JsonNumber { unsigned: n.as_u64(), signed: n.as_i64() },
        ),
        serde_json::Value::String(s) => Json::Text(s),
        serde_json::Value::Array(a) => Json::Array(a.into_iter().map(json_of_document).collect()),
        serde_json::Value::Object(o) => Json::Object(
            o.into_iter().map(|(k, v)| (k, json_of_document(v))).collect(),
        ),
    }
}

/// `serde_json::to_string`, for a string slice: the JSON string literal for
/// `text`. The call reports no error for a string.
#[verifier::external_body]
pub(crate) fn quote_text(text: &str) -> (literal: String)
    ensures
        literal@ == json_string_literal(text@),
{
    serde_json::to_string(text).unwrap_or_default()
}

impl Json {
    /// Reads the JSON document that `text` is.
    pub fn from_text(text: &str) -> (r: Result<Json, serde_json::Error>)
        ensures
            r matches Ok(json) ==> json_document(text@) == Some(json@),
            r is Err ==> json_document(text@) is None,
    {
        match read_document(text) {
            Ok(document) => Ok(json_of_document(document)),
            Err(error) => Err(error),
        }
    }

    /// The member `key` of an object: the value of the first member with
    /// that key.
    pub fn member<'a>(&'a self, key: &str) -> (found: Option<&'a Json>)
        ensures
            match found {
                Some(json) => self@.member(key@) == Some(json@),
                None => self@.member(key@) is None,
            },
    {
        match self {
            Json::Object(members) => {
                let wanted = String::from_str(key);
                let ghost all = self@->Object_0;
                let mut at: usize = 0;
                proof {
                    assert(all.skip(0) =~= all);
                }
                while at < members.len()
                    invariant
                        at <= members.len(),
                        wanted@ == key@,
                        self@ == JsonValue::Object(all),
                        all.len() == members@.len(),
                        forall|i: int|
                            0 <= i < members@.len() ==> #[trigger] all[i] == (
                                members[i].0@,
                                members[i].1@,
                            ),
                        member_of(all, key@) == member_of(all.skip(at as int), key@),
                    decreases members.len() - at,
                {
                    proof {
                        assert(all.skip(at as int).drop_first() =~= all.skip(at as int + 1));
                        assert(all.skip(at as int)[0] == all[at as int]);
                    }
                    if members[at].0 == wanted {
                        return Some(&members[at].1);
                    }
                    at += 1;
                }
                None
            },
            _ => None,
        }
    }
}

} // verus!
