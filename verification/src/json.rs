//! JSON values, held as their compact text.

use vstd::prelude::*;

verus! {

/// A JSON value, held as its compact text: no blanks between tokens.
#[derive(Debug, PartialEq, Eq)]
pub struct Json {
    text: String,
}

impl DeepView for Json {
    type V = Seq<char>;

    closed spec fn deep_view(&self) -> Seq<char> {
        self.text@
    }
}

impl Clone for Json {
    fn clone(&self) -> (copy: Self)
        ensures
            copy.deep_view() == self.deep_view(),
    {
        Json { text: self.text.clone() }
    }
}

/// `serde_json::Error`: why a text is not JSON.
#[verifier::external_type_specification]
#[verifier::external_body]
pub struct ExJsonError(serde_json::Error);

/// The compact text of the JSON value that `text` spells, or `None` where it
/// spells none: what `serde_json::from_str` into a `serde_json::Value` and the
/// value's `to_string` make of it.
pub uninterp spec fn json_compact(text: Seq<char>) -> Option<Seq<char>>;

/// Calls `serde_json::from_str` for a `serde_json::Value` and turns the value
/// into its compact text. Claimed: the outcome depends on the text alone.
#[verifier::external_body]
fn parse_compact(text: &str) -> (compact: Result<String, serde_json::Error>)
    ensures
        compact is Ok <==> json_compact(text@) is Some,
        compact matches Ok(compact) ==> json_compact(text@) == Some(compact@),
{
    let value: serde_json::Value = serde_json::from_str(text)?;
    Ok(value.to_string())
}

/// The text of JSON's null.
pub open spec fn json_null() -> Seq<char> {
    "null"@
}

impl Json {
    /// JSON's null.
    pub fn null() -> (value: Self)
        ensures
            value.deep_view() == json_null(),
    {
        Json { text: "null".to_owned() }
    }

    /// Reads a JSON text. Fails exactly on texts that are no JSON.
    pub fn parse(text: &str) -> (value: Result<Self, serde_json::Error>)
        ensures
            value is Ok <==> json_compact(text@) is Some,
            value matches Ok(value) ==> json_compact(text@) == Some(value.deep_view()),
    {
        match parse_compact(text) {
            Ok(text) => Ok(Json { text }),
            Err(error) => Err(error),
        }
    }

    /// Reads a JSON text; a text that is no JSON counts as null.
    pub fn parse_or_null(text: &str) -> (value: Self)
        ensures
            value.deep_view() == parsed_or_null(json_compact(text@)),
    {
        match parse_compact(text) {
            Ok(text) => Json { text },
            Err(_) => Json::null(),
        }
    }

    /// The compact text of the value.
    pub(crate) fn into_text(self) -> (text: String)
        ensures
            text@ == self.deep_view(),
    {
        self.text
    }

    /// The value of a compact text.
    pub(crate) fn of_text(text: String) -> (value: Self)
        ensures
            value.deep_view() == text@,
    {
        Json { text }
    }

    /// The compact text of the value.
    pub fn as_text(&self) -> (text: &str)
        ensures
            text@ == self.deep_view(),
    {
        self.text.as_str()
    }
}

/// A compact text, with null standing in for a missing one.
pub open spec fn parsed_or_null(compact: Option<Seq<char>>) -> Seq<char> {
    match compact {
        Some(text) => text,
        None => json_null(),
    }
}

} // verus!
