//! JSON documents, read with `serde_json`.

use vstd::prelude::*;

verus! {

/// What a JSON document holds, as far as this library reads documents.
pub enum Json {
    /// Null, a boolean or a number.
    Scalar,
    Text(Seq<char>),
    List(Seq<Json>),
    Object(Map<Seq<char>, Json>),
}

/// A parsed document.
#[verifier::external_type_specification]
#[verifier::external_body]
pub struct ExValue(serde_json::Value);

/// Why a text is no document.
#[verifier::external_type_specification]
#[verifier::external_body]
pub struct ExError(serde_json::Error);

/// The contents of a parsed document.
pub uninterp spec fn contents(value: serde_json::Value) -> Json;

/// What `serde_json::from_str` reads from a text: a document's contents, or nothing
/// where the text is no document.
pub uninterp spec fn read_document(text: Seq<char>) -> Option<Json>;

/// `serde_json::from_str`, for a document of any shape. Whether it succeeds, and with
/// what contents, is a function of the text.
#[verifier::external_body]
pub(crate) fn from_str(text: &str) -> (value: Result<serde_json::Value, serde_json::Error>)
    ensures
        value is Ok <==> read_document(text@) is Some,
        value matches Ok(v) ==> read_document(text@) == Some(contents(v)),
{
    serde_json::from_str(text)
}

/// `serde_json::Value::as_array`: the items of a list, in order, and `None` for a value
/// that is no list.
#[verifier::external_body]
pub(crate) fn as_array(value: &serde_json::Value) -> (items: Option<&Vec<serde_json::Value>>)
    ensures
        items is Some <==> contents(*value) is List,
        items matches Some(v) ==> contents(*value) == Json::List(
            Seq::new(v@.len(), |i: int| contents(v@[i])),
        ),
{
    value.as_array()
}

/// `serde_json::Value::as_str`: the text of a string, and `None` for a value that is no
/// string.
#[verifier::external_body]
pub(crate) fn as_str(value: &serde_json::Value) -> (text: Option<&str>)
    ensures
        text is Some <==> contents(*value) is Text,
        text matches Some(t) ==> contents(*value) == Json::Text(t@),
{
    value.as_str()
}

/// `serde_json::Value::get` with a key: the member of that name, and `None` where there
/// is none or the value is no object.
#[verifier::external_body]
pub(crate) fn get<'a>(value: &'a serde_json::Value, key: &str) -> (member: Option<
    &'a serde_json::Value,
>)
    ensures
        member is Some <==> (contents(*value) matches Json::Object(m) && m.contains_key(key@)),
        member matches Some(v) ==> contents(*value)->Object_0[key@] == contents(*v),
{
    value.get(key)
}

} // verus!
