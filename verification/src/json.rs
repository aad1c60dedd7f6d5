//! JSON objects built and rendered by `serde_json`.

use vstd::prelude::*;

verus! {

/// A JSON value of `serde_json`.
#[verifier::external_type_specification]
#[verifier::external_body]
pub struct ExJsonValue(serde_json::Value);

/// A JSON object of `serde_json`.
#[verifier::external_type_specification]
#[verifier::external_body]
#[verifier::reject_recursive_types(K)]
#[verifier::reject_recursive_types(V)]
pub struct ExJsonMap<K, V>(serde_json::Map<K, V>);

/// What one item of a rendered list holds.
pub enum JsonItem {
    /// A string.
    Text(Seq<char>),
    /// An array of ready values.
    Row(Seq<serde_json::Value>),
}

/// What one field of a rendered object holds.
pub enum JsonField {
    /// A string.
    Text(Seq<char>),
    /// An integer.
    Number(int),
    /// A truth value.
    Truth(bool),
    /// `null`.
    Null,
    /// An array.
    List(Seq<JsonItem>),
}

/// The fields that an object holds.
pub uninterp spec fn json_fields(object: serde_json::Map<String, serde_json::Value>) -> Map<Seq<char>, JsonField>;

/// The compact text of an object with these fields.
pub uninterp spec fn json_text(fields: Map<Seq<char>, JsonField>) -> Seq<char>;

/// The compact text of a value.
pub uninterp spec fn value_text(value: serde_json::Value) -> Seq<char>;

/// The fields of an empty object.
pub open spec fn no_fields() -> Map<Seq<char>, JsonField> {
    Map::empty()
}

/// Calls `serde_json::Map::new`.
///
/// Claimed of it: the new object has no fields.
#[verifier::external_body]
pub(crate) fn new_object() -> (object: serde_json::Map<String, serde_json::Value>)
    ensures
        json_fields(object) == no_fields(),
{
    serde_json::Map::new()
}

/// Calls `serde_json::Map::insert` with `Value::from(&str)`.
///
/// Claimed of it: the field holds that string afterwards, replacing an earlier
/// value, and no other field changes.
#[verifier::external_body]
pub(crate) fn put_text(
    object: &mut serde_json::Map<String, serde_json::Value>,
    key: &str,
    value: &str,
)
    ensures
        json_fields(*final(object)) == json_fields(*old(object)).insert(
            key@,
            JsonField::Text(value@),
        ),
{
    object.insert(key.to_owned(), serde_json::Value::from(value));
}

/// Calls `serde_json::Map::insert` with `Value::from(u64)`.
///
/// Claimed of it: the field holds that integer afterwards, replacing an earlier
/// value, and no other field changes.
#[verifier::external_body]
pub(crate) fn put_number(
    object: &mut serde_json::Map<String, serde_json::Value>,
    key: &str,
    value: u64,
)
    ensures
        json_fields(*final(object)) == json_fields(*old(object)).insert(
            key@,
            JsonField::Number(value as int),
        ),
{
    object.insert(key.to_owned(), serde_json::Value::from(value));
}

/// Calls `serde_json::Map::insert` with `Value::from(i64)`.
///
/// Claimed of it: the field holds that integer afterwards, replacing an earlier
/// value, and no other field changes. `serde_json` keeps a non-negative `i64`
/// in the form in which it keeps the same `u64`.
#[verifier::external_body]
pub(crate) fn put_signed(
    object: &mut serde_json::Map<String, serde_json::Value>,
    key: &str,
    value: i64,
)
    ensures
        json_fields(*final(object)) == json_fields(*old(object)).insert(
            key@,
            JsonField::Number(value as int),
        ),
{
    object.insert(key.to_owned(), serde_json::Value::from(value));
}

/// Calls `serde_json::Map::insert` with `Value::from(bool)`.
///
/// Claimed of it: the field holds that truth value afterwards, replacing an
/// earlier value, and no other field changes.
#[verifier::external_body]
pub(crate) fn put_truth(
    object: &mut serde_json::Map<String, serde_json::Value>,
    key: &str,
    value: bool,
)
    ensures
        json_fields(*final(object)) == json_fields(*old(object)).insert(
            key@,
            JsonField::Truth(value),
        ),
{
    object.insert(key.to_owned(), serde_json::Value::from(value));
}

/// Calls `serde_json::Map::insert` with `Value::Null`.
///
/// Claimed of it: the field holds `null` afterwards, replacing an earlier
/// value, and no other field changes.
#[verifier::external_body]
pub(crate) fn put_null(object: &mut serde_json::Map<String, serde_json::Value>, key: &str)
    ensures
        json_fields(*final(object)) == json_fields(*old(object)).insert(key@, JsonField::Null),
{
    object.insert(key.to_owned(), serde_json::Value::Null);
}

/// A list of strings.
pub open spec fn texts_of(values: Seq<String>) -> Seq<JsonItem> {
    Seq::new(values.len(), |i: int| JsonItem::Text(values[i]@))
}

/// Calls `serde_json::Map::insert` with `Value::from(Vec<String>)`.
///
/// Claimed of it: the field holds an array of these strings in order
/// afterwards, replacing an earlier value, and no other field changes.
#[verifier::external_body]
pub(crate) fn put_texts(
    object: &mut serde_json::Map<String, serde_json::Value>,
    key: &str,
    values: Vec<String>,
)
    ensures
        json_fields(*final(object)) == json_fields(*old(object)).insert(
            key@,
            JsonField::List(texts_of(values@)),
        ),
{
    object.insert(key.to_owned(), serde_json::Value::from(values));
}

/// A list of rows.
pub open spec fn rows_of(rows: Seq<Vec<serde_json::Value>>) -> Seq<JsonItem> {
    Seq::new(rows.len(), |i: int| JsonItem::Row(rows[i]@))
}

/// Calls `serde_json::Map::insert` with `Value::from(Vec<Vec<Value>>)`.
///
/// Claimed of it: the field holds an array of these rows in order afterwards,
/// each an array of its cells in order, replacing an earlier value, and no
/// other field changes.
#[verifier::external_body]
pub(crate) fn put_rows(
    object: &mut serde_json::Map<String, serde_json::Value>,
    key: &str,
    rows: Vec<Vec<serde_json::Value>>,
)
    ensures
        json_fields(*final(object)) == json_fields(*old(object)).insert(
            key@,
            JsonField::List(rows_of(rows@)),
        ),
{
    object.insert(key.to_owned(), serde_json::Value::from(rows));
}

/// Calls `to_string` on `serde_json::Value::Object`.
///
/// Claimed of it: the text depends on the object's fields alone. The object is
/// kept in key order, so the order of insertion leaves no trace.
#[verifier::external_body]
pub(crate) fn object_text(object: serde_json::Map<String, serde_json::Value>) -> (text: String)
    ensures
        text@ == json_text(json_fields(object)),
{
    serde_json::Value::Object(object).to_string()
}

/// Calls `to_string` on a `serde_json::Value`.
///
/// Claimed of it: the text depends on the value alone.
#[verifier::external_body]
pub(crate) fn render_value(value: &serde_json::Value) -> (text: String)
    ensures
        text@ == value_text(*value),
{
    value.to_string()
}

} // verus!
