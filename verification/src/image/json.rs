//! What is read of the JSON values that go upstream and come back.

use vstd::prelude::*;

verus! {

/// A JSON value of `serde_json`. Nothing is known of what is inside but
/// through [`text_members`] and [`json_text`].
#[verifier::external_type_specification]
#[verifier::external_body]
pub struct ExJsonValue(serde_json::Value);

/// The error of `serde_json`. Nothing is read of it.
#[verifier::external_type_specification]
#[verifier::external_body]
pub struct ExJsonError(serde_json::Error);

/// The members of a JSON object whose values are strings, by key. A value
/// that is not an object has none.
pub uninterp spec fn text_members(value: serde_json::Value) -> Map<Seq<char>, Seq<char>>;

/// The compact JSON text of a value, as `serde_json::to_string` writes it;
/// `None` where it writes none.
pub uninterp spec fn json_text(value: serde_json::Value) -> Option<Seq<char>>;

/// `serde_json::Value::get` with a string key, then `Value::as_str`: the
/// string under `key`, where `value` is an object that has the key and a
/// string is what it holds; `None` in every other case.
#[verifier::external_body]
fn text_member(value: &serde_json::Value, key: &str) -> (r: Option<String>)
    ensures
        match r {
            Some(text) => text_members(*value).contains_key(key@) && text_members(*value)[key@]
                == text@,
            None => !text_members(*value).contains_key(key@),
        },
{
    value.get(key).and_then(|member| member.as_str()).map(|text| text.to_owned())
}

/// `serde_json::to_string` on a value: its compact JSON text, or the error
/// with which the writing ended. The contract gives the text its name and
/// does not say that the writing succeeds.
#[verifier::external_body]
fn to_text(value: &serde_json::Value) -> (r: Result<String, serde_json::Error>)
    ensures
        match r {
            Ok(text) => json_text(*value) == Some(text@),
            Err(_) => json_text(*value) is None,
        },
{
    serde_json::to_string(value)
}

/// The string that `value` holds under `key`, or `fallback` where it holds
/// none.
pub open spec fn text_or(value: serde_json::Value, key: Seq<char>, fallback: Seq<char>) -> Seq<
    char,
> {
    if text_members(value).contains_key(key) {
        text_members(value)[key]
    } else {
        fallback
    }
}

/// The model of a request that names none.
pub open spec fn default_model() -> Seq<char> {
    "gemini-3-pro-image-preview"@
}

/// The model that `request` names, or the default one.
pub open spec fn model_of(request: serde_json::Value) -> Seq<char> {
    text_or(request, "model"@, default_model())
}

/// The model that a log line shows for `request`.
pub open spec fn shown_model(request: serde_json::Value) -> Seq<char> {
    text_or(request, "model"@, "unknown"@)
}

/// The text of `answer` as a log line shows it: its JSON text, or nothing
/// where it cannot be written.
pub open spec fn shown_answer(answer: serde_json::Value) -> Seq<char> {
    match json_text(answer) {
        Some(text) => text,
        None => Seq::<char>::empty(),
    }
}

/// The model that the request names under `model`, or the default where it
/// names none.
pub fn request_model(request: &serde_json::Value) -> (r: String)
    ensures
        r@ == model_of(*request),
{
    match text_member(request, "model") {
        Some(model) => model,
        None => "gemini-3-pro-image-preview".to_owned(),
    }
}

/// The model that a log line shows for the request: the one it names, or
/// `unknown`.
pub fn request_model_shown(request: &serde_json::Value) -> (r: String)
    ensures
        r@ == shown_model(*request),
{
    match text_member(request, "model") {
        Some(model) => model,
        None => "unknown".to_owned(),
    }
}

/// The JSON text of an answer for a log line; empty where the answer
/// cannot be written.
pub fn answer_shown(answer: &serde_json::Value) -> (r: String)
    ensures
        r@ == shown_answer(*answer),
{
    match to_text(answer) {
        Ok(text) => text,
        Err(_) => String::new(),
    }
}

} // verus!
