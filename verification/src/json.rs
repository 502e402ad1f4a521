//! JSON values, by way of `serde_json`.
//!
//! A value is held as `serde_json::Value`. What is known of one is its members, where it is an
//! object, its characters, where it is a string, and its compact text.

use serde_json::Value;
use vstd::prelude::*;

verus! {

#[verifier::external_type_specification]
#[verifier::external_body]
pub struct ExValue(serde_json::Value);

#[verifier::external_type_specification]
#[verifier::external_body]
pub struct ExError(serde_json::Error);

/// The value that a JSON text stands for; `None` where the text is not valid JSON.
pub uninterp spec fn json_parse(text: Seq<char>) -> Option<Value>;

/// The members of a JSON object by their names; `None` where the value is not an object.
pub uninterp spec fn json_members(value: Value) -> Option<Map<Seq<char>, Value>>;

/// The characters of a JSON string; `None` where the value is not a string.
pub uninterp spec fn json_string(value: Value) -> Option<Seq<char>>;

/// The text of a JSON value without optional whitespace.
pub uninterp spec fn json_text(value: Value) -> Seq<char>;

/// `serde_json::from_str`, read as a `Value`: the value that the text stands for, or an error
/// exactly where it is not valid JSON.
#[verifier::external_body]
pub(crate) fn parse(text: &str) -> (r: Result<Value, serde_json::Error>)
    ensures
        match r {
            Ok(value) => json_parse(text@) == Some(value),
            Err(_) => json_parse(text@) is None,
        },
{
    serde_json::from_str(text)
}

/// `serde_json::Value::get` with a member's name: that member of an object; `None` where the
/// object has no such member, and on every value that is not an object.
#[verifier::external_body]
pub(crate) fn get<'a>(value: &'a Value, name: &str) -> (r: Option<&'a Value>)
    ensures
        r == match json_members(*value) {
            Some(members) => if members.contains_key(name@) {
                Some(&members[name@])
            } else {
                None
            },
            None => None,
        },
{
    value.get(name)
}

/// `serde_json::Value::as_str`: the characters of a JSON string; `None` on every other value.
pub assume_specification[ serde_json::Value::as_str ](value: &Value) -> (r: Option<&str>)
    ensures
        r is None <==> json_string(*value) is None,
        r matches Some(s) ==> json_string(*value) == Some(s@),
;

/// `serde_json::to_string` of a `Value`: the compact text of the value. Writing one never fails:
/// it holds no map with other keys than strings and no number that JSON cannot write.
#[verifier::external_body]
pub(crate) fn to_text(value: &Value) -> (r: Result<String, serde_json::Error>)
    ensures
        r is Ok,
        r->Ok_0@ == json_text(*value),
{
    serde_json::to_string(value)
}

/// The text of the member `name` of a JSON object.
pub open spec fn text_member(value: Value, name: Seq<char>) -> Option<Seq<char>> {
    match json_members(value) {
        Some(members) if members.contains_key(name) => json_string(members[name]),
        _ => None,
    }
}

/// The characters of the member `name`, where `value` is an object with such a member and it is
/// a string.
pub fn get_text(value: &Value, name: &str) -> (r: Option<String>)
    ensures
        match text_member(*value, name@) {
            Some(s) => r matches Some(t) && t@ == s,
            None => r is None,
        },
{
    match get(value, name) {
        Some(member) => match member.as_str() {
            Some(s) => Some(s.to_owned()),
            None => None,
        },
        None => None,
    }
}

} // verus!
