//! JSON parsing of `serde_json` and JSONPath queries of `serde_json_path`,
//! as the library uses them on the text of `<script>` blocks.
use vstd::prelude::*;

verus! {

/// Whether `serde_json::from_str::<Value>(text)` succeeds.
pub uninterp spec fn json_whole_parses(text: Seq<char>) -> bool;

/// Whether the first value of `serde_json::Deserializer::from_str(text)
/// .into_iter::<Value>()` parses (trailing text after it is allowed).
pub uninterp spec fn json_leading_parses(text: Seq<char>) -> bool;

/// Whether `serde_json_path::JsonPath::parse(path)` succeeds.
pub uninterp spec fn json_path_parses(path: Seq<char>) -> bool;

/// The nodes `path` selects in the JSON value read from `text` (the whole
/// text, or its leading value), each as text: strings as they are, other
/// values as compact JSON.
pub uninterp spec fn json_query_values(path: Seq<char>, text: Seq<char>, whole: bool) -> Seq<Seq<char>>;

pub open spec fn string_views(v: Seq<String>) -> Seq<Seq<char>> {
    Seq::new(v.len(), |i: int| v[i]@)
}

#[verifier::external_type_specification]
#[verifier::external_body]
pub struct ExJsonValue(serde_json::Value);

/// The `Display` text of the error `serde_json::from_str::<Value>(text)`
/// reports.
pub uninterp spec fn json_error_message(text: Seq<char>) -> Seq<char>;

/// `serde_json::from_str::<serde_json::Value>(text)`: a value exactly when
/// the whole text parses (what it holds is not stated), else the text of
/// the error.
#[verifier::external_body]
pub(crate) fn json_parse(text: &str) -> (r: Result<serde_json::Value, String>)
    ensures
        r is Ok <==> json_whole_parses(text@),
        r matches Err(m) ==> m@ == json_error_message(text@),
{
    serde_json::from_str::<serde_json::Value>(text).map_err(|e| e.to_string())
}

/// Whether the stream deserializer reads a first value from `text`.
#[verifier::external_body]
pub(crate) fn json_leading_ok(text: &str) -> (r: bool)
    ensures
        r == json_leading_parses(text@),
{
    matches!(serde_json::Deserializer::from_str(text).into_iter::<serde_json::Value>().next(), Some(Ok(_)))
}

/// The text of the error `serde_json_path::JsonPath::parse` reports for a
/// path that does not parse.
pub uninterp spec fn json_path_error_message(path: Seq<char>) -> Seq<char>;

/// `serde_json_path::JsonPath::parse(path)`; the error is its text.
#[verifier::external_body]
pub(crate) fn json_path_check(path: &str) -> (r: Result<(), String>)
    ensures
        r is Ok <==> json_path_parses(path@),
        r matches Err(m) ==> m@ == json_path_error_message(path@),
{
    serde_json_path::JsonPath::parse(path).map(|_| ()).map_err(|e| e.to_string())
}

/// `JsonPath::parse(path)?.query(&value).all()` on the value read from
/// `text`, each node as a string (`Value::String` as is, else `to_string`).
#[verifier::external_body]
pub(crate) fn json_path_values(path: &str, text: &str, whole: bool) -> (r: Vec<String>)
    requires
        json_path_parses(path@),
        whole ==> json_whole_parses(text@),
        !whole ==> json_leading_parses(text@),
    ensures
        string_views(r@) == json_query_values(path@, text@, whole),
{
    let value: serde_json::Value = if whole { serde_json::from_str(text).unwrap() } else { serde_json::Deserializer::from_str(text).into_iter().next().unwrap().unwrap() };
    let jp = serde_json_path::JsonPath::parse(path).unwrap();
    jp.query(&value).all().into_iter().map(|v| match v { serde_json::Value::String(s) => s.clone(), other => other.to_string() }).collect()
}

/// A JSON value as field extraction reads it.
#[derive(Debug, Clone, PartialEq, Eq)]
pub enum JsonField {
    Null,
    Bool(bool),
    /// A number, in serde_json's text.
    Number(String),
    Str(String),
    /// The items of an array: strings as they are, other items as compact
    /// JSON.
    Array(Vec<String>),
    /// The values of an object in key order, read as array items are.
    Object(Vec<String>),
}

/// A [`JsonField`] as views.
pub enum JsonFieldView {
    Null,
    Bool(bool),
    Number(Seq<char>),
    Str(Seq<char>),
    Array(Seq<Seq<char>>),
    Object(Seq<Seq<char>>),
}

pub open spec fn field_view(f: JsonField) -> JsonFieldView {
    match f {
        JsonField::Null => JsonFieldView::Null,
        JsonField::Bool(b) => JsonFieldView::Bool(b),
        JsonField::Number(n) => JsonFieldView::Number(n@),
        JsonField::Str(s) => JsonFieldView::Str(s@),
        JsonField::Array(v) => JsonFieldView::Array(string_views(v@)),
        JsonField::Object(v) => JsonFieldView::Object(string_views(v@)),
    }
}

/// What the member `key` of the JSON object read from `text` holds; `None`
/// when the text does not parse, is not an object, or lacks the key.
pub uninterp spec fn json_member(text: Seq<char>, key: Seq<char>) -> Option<JsonFieldView>;

/// `serde_json::from_str::<Value>(text)` then `.get(key)`, the member
/// converted variant by variant into a [`JsonField`].
#[verifier::external_body]
pub(crate) fn json_field(text: &str, key: &str) -> (r: Option<JsonField>)
    ensures
        match r {
            Some(f) => json_member(text@, key@) == Some(field_view(f)),
            None => json_member(text@, key@) is None,
        },
{
    let item = |x: &serde_json::Value| x.as_str().map_or_else(|| x.to_string(), |s| s.to_string());
    Some(match serde_json::from_str::<serde_json::Value>(text).ok()?.get(key)? {
        serde_json::Value::Null => JsonField::Null,
        serde_json::Value::Bool(b) => JsonField::Bool(*b),
        serde_json::Value::Number(n) => JsonField::Number(n.to_string()),
        serde_json::Value::String(s) => JsonField::Str(s.clone()),
        serde_json::Value::Array(a) => JsonField::Array(a.iter().map(item).collect()),
        serde_json::Value::Object(o) => JsonField::Object(o.values().map(item).collect()),
    })
}

/// The compact JSON text of each item of the array read from `text`;
/// `None` when the text does not parse or is not an array.
pub uninterp spec fn json_array_items(text: Seq<char>) -> Option<Seq<Seq<char>>>;

/// `serde_json::from_str::<Value>(text)` then `.as_array()`, each item as
/// `to_string()`.
#[verifier::external_body]
pub(crate) fn json_array_texts(text: &str) -> (r: Option<Vec<String>>)
    ensures
        match r {
            Some(v) => json_array_items(text@) == Some(string_views(v@)),
            None => json_array_items(text@) is None,
        },
{
    let v = serde_json::from_str::<serde_json::Value>(text).ok()?;
    Some(v.as_array()?.iter().map(|x| x.to_string()).collect())
}

} // verus!

verus! {

/// A member of an extra-fields object: one string, or an array of strings.
pub enum ExtraValue {
    Single(String),
    Many(Vec<String>),
}

/// A member as its key, its strings and whether it is a single string.
pub type EntryView = (Seq<char>, Seq<Seq<char>>, bool);

pub open spec fn entry_view(e: (String, ExtraValue)) -> EntryView {
    match e.1 {
        ExtraValue::Single(s) => (e.0@, seq![s@], true),
        ExtraValue::Many(v) => (e.0@, string_views(v@), false),
    }
}

pub open spec fn entries_view(v: Seq<(String, ExtraValue)>) -> Seq<EntryView> {
    Seq::new(v.len(), |i: int| entry_view(v[i]))
}

/// The compact JSON text of the object with these members, inserted in
/// order into a `serde_json::Map` (a later member replaces an earlier one
/// of the same key).
pub uninterp spec fn json_object_text(entries: Seq<EntryView>) -> Seq<char>;

/// `serde_json::Value::Object` built from the members, then `to_string`.
#[verifier::external_body]
pub(crate) fn json_object_string(entries: &[(String, ExtraValue)]) -> (r: String)
    ensures
        r@ == json_object_text(entries_view(entries@)),
{
    let map: serde_json::Map<String, serde_json::Value> = entries.iter().map(|(k, v)| (k.clone(), match v {
        ExtraValue::Single(s) => serde_json::Value::String(s.clone()),
        ExtraValue::Many(vs) => serde_json::Value::Array(vs.iter().map(|s| serde_json::Value::String(s.clone())).collect()),
    })).collect();
    serde_json::Value::Object(map).to_string()
}

} // verus!
