//! JSON values of `serde_json`, as far as this library reads and writes them.

use vstd::prelude::*;

verus! {

/// A JSON value from `serde_json`, opaque here; [`json_view`] names what it holds.
#[verifier::external_type_specification]
#[verifier::external_body]
pub struct ExValue(serde_json::Value);

/// The error that `serde_json` reports, opaque here.
#[verifier::external_type_specification]
#[verifier::external_body]
pub struct ExJsonError(serde_json::Error);

/// What a JSON value holds: text, the members of an object, or something that is neither.
pub enum JsonView {
    Text(Seq<char>),
    Object(Map<Seq<char>, JsonView>),
    Other,
}

/// The contents of a `serde_json::Value`.
pub uninterp spec fn json_view(value: serde_json::Value) -> JsonView;

/// What `serde_json::from_str::<serde_json::Value>` reads out of a text, `None` where it
/// reports an error.
pub uninterp spec fn json_parsed(text: Seq<char>) -> Option<JsonView>;

/// The text that `serde_json::to_string_pretty` writes for an object with one member, a text.
pub uninterp spec fn json_written(name: Seq<char>, text: Seq<char>) -> Seq<char>;

/// The object with one member: `text` under `name`.
pub open spec fn text_object(name: Seq<char>, text: Seq<char>) -> JsonView {
    JsonView::Object(map![name => JsonView::Text(text)])
}

/// A member name that `serde_json` does not keep for itself: those begin with `$`.
pub open spec fn is_plain_name(name: Seq<char>) -> bool {
    name.len() > 0 && name[0] != '$'
}

/// Calls `serde_json::from_str` for a `serde_json::Value`. The outcome depends on the text
/// alone: [`json_parsed`] names it.
#[verifier::external_body]
pub(crate) fn parse_json(text: &str) -> (r: Result<serde_json::Value, serde_json::Error>)
    ensures
        match r {
            Ok(value) => json_parsed(text@) == Some(json_view(value)),
            Err(_) => json_parsed(text@) is None,
        },
{
    serde_json::from_str::<serde_json::Value>(text)
}

/// Calls `serde_json::Value::get` with a string index: the member of that name where the value
/// is an object that has it, else `None`.
#[verifier::external_body]
pub(crate) fn json_member<'a>(value: &'a serde_json::Value, name: &str) -> (r: Option<
    &'a serde_json::Value,
>)
    ensures
        match json_view(*value) {
            JsonView::Object(members) => match r {
                Some(member) => members.dom().contains(name@) && json_view(*member)
                    == members[name@],
                None => !members.dom().contains(name@),
            },
            _ => r is None,
        },
{
    value.get(name)
}

/// `serde_json::Value::as_str`: the text where the value is a string, else `None`.
pub assume_specification<'a>[ serde_json::Value::as_str ](value: &'a serde_json::Value) -> (r:
    Option<&'a str>)
    ensures
        match json_view(*value) {
            JsonView::Text(text) => r is Some && r->0@ == text,
            _ => r is None,
        },
;

/// Builds an object with one member, a text, by `serde_json::Map::insert` on an empty map.
#[verifier::external_body]
pub(crate) fn json_text_object(name: &str, text: &str) -> (r: serde_json::Value)
    ensures
        json_view(r) == text_object(name@, text@),
{
    let mut members = serde_json::Map::new();
    members.insert(name.to_string(), serde_json::Value::String(text.to_string()));
    serde_json::Value::Object(members)
}

/// Calls `serde_json::to_string_pretty`. An object with one member, a text under a plain name,
/// is always written, [`json_written`] names the text, and `serde_json::from_str` reads the
/// object back out of it. Of other values nothing is claimed.
#[verifier::external_body]
pub(crate) fn json_pretty(value: &serde_json::Value) -> (r: Result<String, serde_json::Error>)
    ensures
        forall|name: Seq<char>, text: Seq<char>|
            is_plain_name(name) && json_view(*value) == #[trigger] text_object(name, text) ==> {
                &&& r is Ok
                &&& r->Ok_0@ == json_written(name, text)
                &&& json_parsed(r->Ok_0@) == Some(text_object(name, text))
            },
{
    serde_json::to_string_pretty(value)
}

} // verus!
