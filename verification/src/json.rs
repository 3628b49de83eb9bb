//! Reading JSON documents. The parsing is serde_json's; what a parsed value
//! holds is known here through a model of it.

use vstd::prelude::*;
use vstd::string::*;

verus! {

/// `serde_json::Value`: a parsed JSON value.
#[verifier::external_type_specification]
#[verifier::external_body]
pub struct ExJsonValue(serde_json::Value);

/// `serde_json::Error`: why a text is no JSON document.
#[verifier::external_type_specification]
#[verifier::external_body]
pub struct ExJsonError(serde_json::Error);

/// What a JSON value holds.
pub enum JsonView {
    Null,
    Bool(bool),
    /// A number; as a signed integer of 64 bits where it is one.
    Number(Option<i64>),
    Text(Seq<char>),
    List(Seq<JsonView>),
    Object(Map<Seq<char>, JsonView>),
}

/// What `value` holds.
pub uninterp spec fn json_view(value: serde_json::Value) -> JsonView;

/// What `text` holds when read as one JSON document; `None` where it is
/// none.
pub uninterp spec fn json_document(text: Seq<char>) -> Option<JsonView>;

/// The member `key` of an object; `None` where `value` is no object or has
/// no such member.
pub open spec fn member_of(value: JsonView, key: Seq<char>) -> Option<JsonView> {
    match value {
        JsonView::Object(members) => if members.contains_key(key) {
            Some(members[key])
        } else {
            None
        },
        _ => None,
    }
}

/// The text of a string; `None` where `value` is no string.
pub open spec fn text_of(value: JsonView) -> Option<Seq<char>> {
    match value {
        JsonView::Text(text) => Some(text),
        _ => None,
    }
}

/// The number of an integer that fits 64 signed bits; `None` where `value`
/// is none.
pub open spec fn integer_of(value: JsonView) -> Option<i64> {
    match value {
        JsonView::Number(number) => number,
        _ => None,
    }
}

/// The items of an array; `None` where `value` is no array.
pub open spec fn items_of(value: JsonView) -> Option<Seq<JsonView>> {
    match value {
        JsonView::List(items) => Some(items),
        _ => None,
    }
}

/// What each of `values` holds.
pub open spec fn views_of(values: Seq<serde_json::Value>) -> Seq<JsonView> {
    Seq::new(values.len(), |i: int| json_view(values[i]))
}

/// The text of member `key` of `value`, where `value` is an object that
/// has such a member and the member is a string.
pub open spec fn text_member(value: JsonView, key: Seq<char>) -> Option<Seq<char>> {
    match member_of(value, key) {
        Some(member) => text_of(member),
        None => None,
    }
}

/// `serde_json::from_str` at `serde_json::Value`: parses `text` as one JSON
/// document. What comes of it depends on the text alone.
#[verifier::external_body]
pub(crate) fn parse_json(text: &str) -> (parsed: Result<serde_json::Value, serde_json::Error>)
    ensures
        parsed is Ok == json_document(text@) is Some,
        parsed matches Ok(value) ==> json_document(text@) == Some(json_view(value)),
{
    serde_json::from_str::<serde_json::Value>(text)
}

/// `serde_json::Value::get` with a string index: the member `key` of an
/// object, `None` for any other value and for an object without it.
#[verifier::external_body]
pub(crate) fn json_get<'a>(value: &'a serde_json::Value, key: &str) -> (member: Option<
    &'a serde_json::Value,
>)
    ensures
        member is Some == member_of(json_view(*value), key@) is Some,
        member matches Some(found) ==> member_of(json_view(*value), key@) == Some(
            json_view(*found),
        ),
{
    value.get(key)
}

/// `serde_json::Value::as_str`: the text of a string, `None` for any other
/// value.
#[verifier::external_body]
pub(crate) fn json_as_str<'a>(value: &'a serde_json::Value) -> (text: Option<&'a str>)
    ensures
        text is Some == text_of(json_view(*value)) is Some,
        text matches Some(s) ==> text_of(json_view(*value)) == Some(s@),
{
    value.as_str()
}

/// `serde_json::Value::as_i64`: the number of an integer that fits 64
/// signed bits, `None` for any other value.
#[verifier::external_body]
pub(crate) fn json_as_i64(value: &serde_json::Value) -> (number: Option<i64>)
    ensures
        number == integer_of(json_view(*value)),
{
    value.as_i64()
}

/// `serde_json::Value::as_array`: the items of an array, `None` for any
/// other value.
#[verifier::external_body]
pub(crate) fn json_as_array<'a>(value: &'a serde_json::Value) -> (items: Option<
    &'a Vec<serde_json::Value>,
>)
    ensures
        items is Some == items_of(json_view(*value)) is Some,
        items matches Some(found) ==> items_of(json_view(*value)) == Some(views_of(found@)),
{
    value.as_array()
}

/// Reads the string member `key` of `value`.
pub fn read_text_member(value: &serde_json::Value, key: &str) -> (text: Option<String>)
    ensures
        text is Some == text_member(json_view(*value), key@) is Some,
        text matches Some(s) ==> text_member(json_view(*value), key@) == Some(s@),
{
    match json_get(value, key) {
        None => None,
        Some(member) => match json_as_str(member) {
            None => None,
            Some(s) => Some(s.to_owned()),
        },
    }
}

} // verus!
