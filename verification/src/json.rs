//! JSON values, held as their compact text.
use crate::text::texts;
use vstd::prelude::*;

verus! {

/// What `serde_json` makes of a JSON text: the elements of the array that stands under a key of the
/// outermost object, each as compact text, where there is such an array. Or the text of its error.
pub uninterp spec fn array_member(body: Seq<u8>, key: Seq<char>) -> Result<
    Option<Seq<Seq<char>>>,
    Seq<char>,
>;

/// What a list of elements holds where there is one, or why the text is no JSON.
pub open spec fn elements_view(elements: Result<Option<Vec<String>>, String>) -> Result<
    Option<Seq<Seq<char>>>,
    Seq<char>,
> {
    match elements {
        Ok(Some(list)) => Ok(Some(texts(list@))),
        Ok(None) => Ok(None),
        Err(error) => Err(error@),
    }
}

/// Calls `serde_json::from_slice` for a `serde_json::Value`, then `Value::get` and
/// `Value::as_array`, and prints each element with the `Display` of `Value`. Claimed: the outcome
/// depends on the bytes and the key alone.
#[verifier::external_body]
pub(crate) fn array_elements(body: &[u8], key: &str) -> (elements: Result<
    Option<Vec<String>>,
    String,
>)
    ensures
        elements_view(elements) == array_member(body@, key@),
{
    let value: serde_json::Value = match serde_json::from_slice(body) {
        Ok(value) => value,
        Err(error) => return Err(error.to_string()),
    };
    let list = value.get(key).and_then(serde_json::Value::as_array);
    Ok(list.map(|elements| elements.iter().map(serde_json::Value::to_string).collect()))
}

/// What `serde_json` makes of a JSON text: the same value as compact text, or the text of its error.
pub uninterp spec fn json_text(text: Seq<char>) -> Result<Seq<char>, Seq<char>>;

/// What a compact text holds, or why there is none.
pub open spec fn json_text_view(text: Result<String, String>) -> Result<Seq<char>, Seq<char>> {
    match text {
        Ok(compact) => Ok(compact@),
        Err(error) => Err(error@),
    }
}

/// Calls `serde_json::from_str` for a `serde_json::Value` and prints the value with its `Display`.
/// Claimed: the outcome depends on the text alone.
#[verifier::external_body]
pub(crate) fn compact_text(text: &str) -> (compact: Result<String, String>)
    ensures
        json_text_view(compact) == json_text(text@),
{
    match serde_json::from_str::<serde_json::Value>(text) {
        Ok(value) => Ok(value.to_string()),
        Err(error) => Err(error.to_string()),
    }
}

/// What `serde_json` prints for a string.
pub uninterp spec fn json_string_text(text: Seq<char>) -> Seq<char>;

/// Calls the `Display` of `serde_json::Value` on a string. Claimed: what is printed depends on the
/// string alone.
#[verifier::external_body]
pub(crate) fn json_string(text: &str) -> (printed: String)
    ensures
        printed@ == json_string_text(text@),
{
    serde_json::Value::String(text.to_owned()).to_string()
}

} // verus!
