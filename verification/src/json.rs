//! JSON values, as the frontend sends and receives them.

use crate::words::maybe_text;
use serde_json::Value;
use vstd::prelude::*;

verus! {

/// A JSON value of `serde_json`.
#[verifier::external_type_specification]
#[verifier::external_body]
pub struct ExValue(serde_json::Value);

/// What a JSON value holds. A number that is no integer is known by its bits.
pub enum JsonView {
    Null,
    Flag(bool),
    Natural(u64),
    Negative(i64),
    Real(u64),
    Text(Seq<char>),
    List(Seq<JsonView>),
    Object(Map<Seq<char>, JsonView>),
}

/// What a JSON value holds.
pub uninterp spec fn json_view(value: serde_json::Value) -> JsonView;

/// What the JSON document `text` holds, or why it is none.
pub uninterp spec fn parsed_json(text: Seq<char>) -> Result<JsonView, Seq<char>>;

/// The JSON document that is written for a value.
pub uninterp spec fn rendered_json(value: JsonView) -> Seq<char>;

/// Whether two JSON values are equal.
pub uninterp spec fn json_equal(left: JsonView, right: JsonView) -> bool;

/// `serde_json::from_str`: the value that a JSON document holds, or the message of the
/// error it gives.
#[verifier::external_body]
pub(crate) fn parse_json(text: &str) -> (parsed: Result<Value, String>)
    ensures
        parsed_json(text@) == (match parsed {
            Ok(value) => Ok::<JsonView, Seq<char>>(json_view(value)),
            Err(message) => Err::<JsonView, Seq<char>>(message@),
        }),
{
    serde_json::from_str(text).map_err(|error| error.to_string())
}

/// `Value`'s `Display`: the compact JSON document of a value. An empty list is a pair of
/// brackets.
#[verifier::external_body]
pub(crate) fn render_json(value: &Value) -> (text: String)
    ensures
        text@ == rendered_json(json_view(*value)),
        json_view(*value) == JsonView::List(seq![]) ==> text@ == "[]"@,
{
    value.to_string()
}

/// `Value`'s equality. It depends on what the two values hold alone, and a text equals
/// nothing but the same text.
#[verifier::external_body]
pub(crate) fn same_value(left: &Value, right: &Value) -> (same: bool)
    ensures
        same == json_equal(json_view(*left), json_view(*right)),
        json_view(*left) is Text || json_view(*right) is Text ==> same == (json_view(*left)
            == json_view(*right)),
{
    left == right
}

/// `Value::get` with a key: a member of an object. No other value has members.
#[verifier::external_body]
pub(crate) fn member<'a>(value: &'a Value, key: &str) -> (found: Option<&'a Value>)
    ensures
        json_member(json_view(*value), key@) == (match found {
            Some(inner) => Some(json_view(*inner)),
            None => None,
        }),
{
    value.get(key)
}

/// `Value::as_str`: the text of a text.
pub assume_specification[ serde_json::Value::as_str ](value: &Value) -> (text: Option<&str>)
    ensures
        match text {
            Some(found) => json_view(*value) == JsonView::Text(found@),
            None => json_view(*value) !is Text,
        },
;

/// `Value::as_bool`: the truth value of a truth value.
pub assume_specification[ serde_json::Value::as_bool ](value: &Value) -> (flag: Option<bool>)
    ensures
        flag == (match json_view(*value) {
            JsonView::Flag(found) => Some(found),
            _ => None,
        }),
;

/// `Value::as_u64`: the number of an integer that is not negative.
pub assume_specification[ serde_json::Value::as_u64 ](value: &Value) -> (number: Option<u64>)
    ensures
        number == (match json_view(*value) {
            JsonView::Natural(found) => Some(found),
            _ => None,
        }),
;

/// `Value::from` a `String`.
#[verifier::external_body]
pub(crate) fn json_text(text: String) -> (value: Value)
    ensures
        json_view(value) == JsonView::Text(text@),
{
    Value::from(text)
}

/// `Value::from` a `bool`.
#[verifier::external_body]
pub(crate) fn json_flag(flag: bool) -> (value: Value)
    ensures
        json_view(value) == JsonView::Flag(flag),
{
    Value::from(flag)
}

/// `Value::from` a `u64`.
#[verifier::external_body]
pub(crate) fn json_number(number: u64) -> (value: Value)
    ensures
        json_view(value) == JsonView::Natural(number),
{
    Value::from(number)
}

/// `Value::from` an `i64`: a number below zero, or a natural one.
#[verifier::external_body]
pub(crate) fn json_integer(number: i64) -> (value: Value)
    ensures
        json_view(value) == integer_view(number),
{
    Value::from(number)
}

/// `Value::from` the unit value.
#[verifier::external_body]
pub(crate) fn json_null() -> (value: Value)
    ensures
        json_view(value) == JsonView::Null,
{
    Value::from(())
}

/// `Value::from` a vector of values.
#[verifier::external_body]
pub(crate) fn json_list(items: Vec<Value>) -> (value: Value)
    ensures
        json_view(value) == JsonView::List(json_items(items@)),
{
    Value::from(items)
}

/// `Value::from_iter` over keys and values: an object. Of two values under one key the
/// later one stays.
#[verifier::external_body]
pub(crate) fn json_object(fields: Vec<(String, Value)>) -> (value: Value)
    ensures
        json_view(value) == object_of(json_fields(fields@)),
{
    Value::from_iter(fields)
}

/// `Value::Object` taken apart into its keys and values; nothing for any other value.
#[verifier::external_body]
pub(crate) fn into_fields(value: Value) -> (fields: Option<Vec<(String, Value)>>)
    ensures
        match fields {
            Some(found) => json_view(value) == object_of(json_fields(found@)),
            None => json_view(value) !is Object,
        },
{
    match value {
        Value::Object(map) => Some(map.into_iter().collect()),
        _ => None,
    }
}

/// The member of an object under `key`.
pub open spec fn json_member(value: JsonView, key: Seq<char>) -> Option<JsonView> {
    match value {
        JsonView::Object(members) => if members.contains_key(key) {
            Some(members[key])
        } else {
            None
        },
        _ => None,
    }
}

/// The text of an object's member.
pub open spec fn member_text(value: JsonView, key: Seq<char>) -> Option<Seq<char>> {
    match json_member(value, key) {
        Some(JsonView::Text(text)) => Some(text),
        _ => None,
    }
}

/// The truth value of an object's member.
pub open spec fn member_flag(value: JsonView, key: Seq<char>) -> Option<bool> {
    match json_member(value, key) {
        Some(JsonView::Flag(flag)) => Some(flag),
        _ => None,
    }
}

/// The natural number of an object's member.
pub open spec fn member_number(value: JsonView, key: Seq<char>) -> Option<u64> {
    match json_member(value, key) {
        Some(JsonView::Natural(number)) => Some(number),
        _ => None,
    }
}

/// A number below zero, or a natural one.
pub open spec fn integer_view(number: i64) -> JsonView {
    if number < 0 {
        JsonView::Negative(number)
    } else {
        JsonView::Natural(number as u64)
    }
}

/// A text, or null where there is none.
pub open spec fn text_or_null(text: Option<Seq<char>>) -> JsonView {
    match text {
        Some(text) => JsonView::Text(text),
        None => JsonView::Null,
    }
}

/// What the values of a list hold.
pub open spec fn json_items(items: Seq<Value>) -> Seq<JsonView> {
    items.map_values(|item: Value| json_view(item))
}

/// What the fields of an object hold.
pub open spec fn json_fields(fields: Seq<(String, Value)>) -> Seq<(Seq<char>, JsonView)> {
    fields.map_values(|field: (String, Value)| (field.0@, json_view(field.1)))
}

/// The members that a row of fields makes, the later one winning where a key repeats.
pub open spec fn members_of(fields: Seq<(Seq<char>, JsonView)>) -> Map<Seq<char>, JsonView>
    decreases fields.len(),
{
    if fields.len() == 0 {
        Map::empty()
    } else {
        members_of(fields.drop_last()).insert(fields.last().0, fields.last().1)
    }
}

/// The object that a row of fields makes.
pub open spec fn object_of(fields: Seq<(Seq<char>, JsonView)>) -> JsonView {
    JsonView::Object(members_of(fields))
}

/// The text of an object's member.
pub fn text_member<'a>(value: &'a Value, key: &str) -> (text: Option<&'a str>)
    ensures
        match text {
            Some(found) => member_text(json_view(*value), key@) == Some(found@),
            None => member_text(json_view(*value), key@) is None,
        },
{
    match member(value, key) {
        Some(inner) => inner.as_str(),
        None => None,
    }
}

/// The truth value of an object's member.
pub fn flag_member(value: &Value, key: &str) -> (flag: Option<bool>)
    ensures
        flag == member_flag(json_view(*value), key@),
{
    match member(value, key) {
        Some(inner) => inner.as_bool(),
        None => None,
    }
}

/// The natural number of an object's member.
pub fn number_member(value: &Value, key: &str) -> (number: Option<u64>)
    ensures
        number == member_number(json_view(*value), key@),
{
    match member(value, key) {
        Some(inner) => inner.as_u64(),
        None => None,
    }
}

/// A field of an object.
pub(crate) fn field(key: &str, value: Value) -> (field: (String, Value))
    ensures
        field.0@ == key@,
        field.1 == value,
{
    (key.to_owned(), value)
}

/// A text, or null where there is none.
pub(crate) fn json_maybe(text: &Option<String>) -> (value: Value)
    ensures
        json_view(value) == text_or_null(maybe_text(*text)),
{
    match text {
        Some(text) => json_str(text.as_str()),
        None => json_null(),
    }
}

/// A text, from a borrowed one.
pub(crate) fn json_str(text: &str) -> (value: Value)
    ensures
        json_view(value) == JsonView::Text(text@),
{
    json_text(text.to_owned())
}

} // verus!
