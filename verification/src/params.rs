//! Provider-specific request parameters.

use vstd::prelude::*;
use crate::deep::{deep, group_deep};
use crate::json::Json;

verus! {

broadcast use group_deep;

/// `serde_json::Map`: the fields of a JSON object.
#[verifier::external_type_specification]
#[verifier::external_body]
#[verifier::reject_recursive_types(K)]
#[verifier::reject_recursive_types(V)]
pub struct ExJsonObject<K, V>(serde_json::Map<K, V>);

/// `serde_json::Value`: a JSON value.
#[verifier::external_type_specification]
#[verifier::external_body]
pub struct ExJsonValue(serde_json::Value);

/// What an object holds: under each name a text. It is that of the value where the value
/// is a string, and the value's compact text where it is not.
pub uninterp spec fn object_fields(
    object: serde_json::Map<String, serde_json::Value>,
) -> Map<Seq<char>, Seq<char>>;

/// No fields.
pub open spec fn no_fields() -> Map<Seq<char>, Seq<char>> {
    Map::empty()
}

/// Calls `serde_json::Map::new`, which makes an object without fields.
#[verifier::external_body]
fn empty_object() -> (object: serde_json::Map<String, serde_json::Value>)
    ensures
        object_fields(object) == no_fields(),
{
    serde_json::Map::new()
}

/// Calls `serde_json::Map::insert` with a string. Claimed: the name has the text then,
/// whether or not it had one before, and every other name has what it had.
#[verifier::external_body]
fn set_field(
    object: &mut serde_json::Map<String, serde_json::Value>,
    name: String,
    text: String,
)
    ensures
        object_fields(*final(object)) == object_fields(*old(object)).insert(name@, text@),
{
    object.insert(name, serde_json::Value::String(text));
}

/// Calls `serde_json::Map::get`, and gives out the text of what it finds. Claimed: it finds
/// something exactly under the names that the object has.
#[verifier::external_body]
fn field(object: &serde_json::Map<String, serde_json::Value>, name: &str) -> (text: Option<String>)
    ensures
        match text {
            Some(text) => object_fields(*object).contains_key(name@) && text@
                == object_fields(*object)[name@],
            None => !object_fields(*object).contains_key(name@),
        },
{
    match object.get(name) {
        Some(serde_json::Value::String(text)) => Some(text.clone()),
        Some(value) => Some(value.to_string()),
        None => None,
    }
}

/// Calls `serde_json::Map::append`. Claimed: the fields of `other` are put on top of those
/// of `object`, and none is left in `other`.
#[verifier::external_body]
fn append_fields(
    object: &mut serde_json::Map<String, serde_json::Value>,
    other: &mut serde_json::Map<String, serde_json::Value>,
)
    ensures
        object_fields(*final(object)) == object_fields(*old(object)).union_prefer_right(
            object_fields(*old(other)),
        ),
        object_fields(*final(other)) == no_fields(),
{
    object.append(other);
}

/// Calls `Clone` of `serde_json::Map`. Claimed: the copy holds the same.
#[verifier::external_body]
fn copy_object(
    object: &serde_json::Map<String, serde_json::Value>,
) -> (copy: serde_json::Map<String, serde_json::Value>)
    ensures
        object_fields(copy) == object_fields(*object),
{
    object.clone()
}

/// Calls `serde_json::Map::keys`, and lists the names. Claimed: each name that the object
/// has is listed, once, and no other is. In which order is not said.
#[verifier::external_body]
fn field_names(object: &serde_json::Map<String, serde_json::Value>) -> (names: Vec<String>)
    ensures
        forall|name: Seq<char>|
            #[trigger] object_fields(*object).contains_key(name) <==> deep(names@).contains(name),
        deep(names@).no_duplicates(),
{
    object.keys().cloned().collect()
}

/// A JSON object. It holds the compact text of each value.
#[derive(Debug, PartialEq, Eq)]
pub struct ParamMap {
    object: serde_json::Map<String, serde_json::Value>,
}

impl DeepView for ParamMap {
    type V = Map<Seq<char>, Seq<char>>;

    closed spec fn deep_view(&self) -> Map<Seq<char>, Seq<char>> {
        object_fields(self.object)
    }
}

impl Clone for ParamMap {
    fn clone(&self) -> (copy: Self)
        ensures
            copy.deep_view() == self.deep_view(),
    {
        ParamMap { object: copy_object(&self.object) }
    }
}

impl ParamMap {
    /// The object without fields.
    pub fn new() -> (map: Self)
        ensures
            map.deep_view() == Map::<Seq<char>, Seq<char>>::empty(),
    {
        ParamMap { object: empty_object() }
    }

    /// The names of the fields.
    pub fn names(&self) -> (names: Vec<String>)
        ensures
            forall|name: Seq<char>|
                #[trigger] self.deep_view().contains_key(name) <==> deep(names@).contains(name),
            deep(names@).no_duplicates(),
    {
        field_names(&self.object)
    }

    /// The value under a name.
    pub fn get(&self, name: &str) -> (value: Option<Json>)
        ensures
            value.deep_view() == (if self.deep_view().contains_key(name@) {
                Some(self.deep_view()[name@])
            } else {
                None
            }),
    {
        match field(&self.object, name) {
            Some(text) => Some(Json::of_text(text)),
            None => None,
        }
    }

    /// The object with a field set.
    pub fn with(self, name: String, value: Json) -> (map: Self)
        ensures
            map.deep_view() == self.deep_view().insert(name@, value.deep_view()),
    {
        let mut map = self;
        set_field(&mut map.object, name, value.into_text());
        map
    }

    /// The object with the fields of another on top.
    pub fn merged_with(self, other: ParamMap) -> (map: Self)
        ensures
            map.deep_view() == self.deep_view().union_prefer_right(other.deep_view()),
    {
        let mut map = self;
        let mut other = other;
        append_fields(&mut map.object, &mut other.object);
        map
    }
}

/// Provider-specific parameters: an object, or some other JSON value.
#[derive(Debug, PartialEq, Eq)]
pub enum AdditionalParams {
    Object(ParamMap),
    Other(Json),
}

pub enum AdditionalParamsView {
    Object(Map<Seq<char>, Seq<char>>),
    Other(Seq<char>),
}

impl DeepView for AdditionalParams {
    type V = AdditionalParamsView;

    open spec fn deep_view(&self) -> AdditionalParamsView {
        match self {
            AdditionalParams::Object(map) => AdditionalParamsView::Object(map.deep_view()),
            AdditionalParams::Other(value) => AdditionalParamsView::Other(value.deep_view()),
        }
    }
}

impl Clone for AdditionalParams {
    fn clone(&self) -> (copy: Self)
        ensures
            copy.deep_view() == self.deep_view(),
    {
        match self {
            AdditionalParams::Object(map) => AdditionalParams::Object(map.clone()),
            AdditionalParams::Other(value) => AdditionalParams::Other(value.clone()),
        }
    }
}

/// The parameters with the given fields on top. Parameters that are no object give
/// way to the fields.
pub open spec fn merged_params(
    baseline: Option<AdditionalParamsView>,
    params: Map<Seq<char>, Seq<char>>,
) -> AdditionalParamsView {
    match baseline {
        Some(AdditionalParamsView::Object(map)) => AdditionalParamsView::Object(
            map.union_prefer_right(params),
        ),
        _ => AdditionalParamsView::Object(params),
    }
}

/// Puts fields on top of parameters.
pub fn merge_params(baseline: Option<AdditionalParams>, params: ParamMap) -> (merged: AdditionalParams)
    ensures
        merged.deep_view() == merged_params(baseline.deep_view(), params.deep_view()),
{
    match baseline {
        Some(AdditionalParams::Object(map)) => AdditionalParams::Object(map.merged_with(params)),
        _ => AdditionalParams::Object(params),
    }
}

/// Of two merges the later one wins, field by field.
pub proof fn law_later_fields_win(
    baseline: Option<AdditionalParamsView>,
    first: Map<Seq<char>, Seq<char>>,
    second: Map<Seq<char>, Seq<char>>,
)
    ensures
        merged_params(Some(merged_params(baseline, first)), second) == merged_params(
            baseline,
            first.union_prefer_right(second),
        ),
        merged_params(baseline, second) matches AdditionalParamsView::Object(map) && forall|
            name: Seq<char>,
        |
            #[trigger] second.contains_key(name) ==> map.contains_key(name) && map[name]
                == second[name],
{
    if let Some(AdditionalParamsView::Object(map)) = baseline {
        assert(map.union_prefer_right(first).union_prefer_right(second) =~= map.union_prefer_right(
            first.union_prefer_right(second),
        ));
    }
}

} // verus!
