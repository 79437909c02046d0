//! The calls into serde_json and jsonformat that the library relies on.
use vstd::prelude::*;

verus! {

#[verifier::external_type_specification]
#[verifier::external_body]
pub struct ExValue(serde_json::Value);

#[verifier::external_type_specification]
#[verifier::external_body]
pub struct ExJsonError(serde_json::Error);

/// The text that jsonformat lays out with one tab per indentation level.
pub uninterp spec fn tab_formatted(text: Seq<char>) -> Seq<char>;

/// Relies on jsonformat::format with tab indentation: it re-indents the text,
/// its result depends on the text alone, and it does not fail on any `&str`.
#[verifier::external_body]
pub(crate) fn format_json_tab(text: &str) -> (r: String)
    ensures
        r@ == tab_formatted(text@),
{
    jsonformat::format(text, jsonformat::Indentation::Tab)
}

/// The compact JSON text that serde_json writes for a value: what the value holds.
pub uninterp spec fn json_of(v: serde_json::Value) -> Seq<char>;

/// The compact JSON text of the value that serde_json reads from `text`, if
/// `text` is JSON.
pub uninterp spec fn parsed_json(text: Seq<char>) -> Option<Seq<char>>;

/// The compact JSON text of the member `key` of the value written `doc`, if
/// that value is an object with such a member.
pub uninterp spec fn member_of(doc: Seq<char>, key: Seq<char>) -> Option<Seq<char>>;

/// The compact JSON texts of the elements of the value written `doc`, in
/// order, if that value is an array.
pub uninterp spec fn elements_of(doc: Seq<char>) -> Option<Seq<Seq<char>>>;

/// Relies on serde_json::from_str, read as a `serde_json::Value`: the result
/// depends on the text alone, and is an error exactly when the text is not JSON.
#[verifier::external_body]
pub(crate) fn parse_json(text: &str) -> (r: Result<serde_json::Value, serde_json::Error>)
    ensures
        r is Ok <==> parsed_json(text@) is Some,
        r is Ok ==> json_of(r->Ok_0) == parsed_json(text@)->Some_0,
{
    serde_json::from_str(text)
}

/// Relies on serde_json::Value::get with a key: the member of that name, if the
/// value is an object that has one.
#[verifier::external_body]
pub(crate) fn json_member(v: &serde_json::Value, key: &str) -> (r: Option<serde_json::Value>)
    ensures
        r is Some <==> member_of(json_of(*v), key@) is Some,
        r is Some ==> json_of(r->Some_0) == member_of(json_of(*v), key@)->Some_0,
{
    v.get(key).cloned()
}

/// Relies on serde_json::Value::as_array: the elements, in order, if the value
/// is an array.
#[verifier::external_body]
pub(crate) fn json_elements(v: &serde_json::Value) -> (r: Option<Vec<serde_json::Value>>)
    ensures
        r is Some <==> elements_of(json_of(*v)) is Some,
        r is Some ==> r->Some_0@.len() == elements_of(json_of(*v))->Some_0.len() && forall|i: int|
            0 <= i < r->Some_0@.len() ==> json_of(#[trigger] r->Some_0@[i]) == elements_of(json_of(*v))->Some_0[i],
{
    v.as_array().cloned()
}

/// Relies on serde_json::Value's `Display`: the value written as compact JSON text.
#[verifier::external_body]
pub(crate) fn json_text(v: &serde_json::Value) -> (r: String)
    ensures
        r@ == json_of(*v),
{
    v.to_string()
}

} // verus!
