//! JSON values and objects, as `serde_json` holds them.

use vstd::prelude::*;

verus! {

/// `serde_json::Value`, opaque here.
#[verifier::external_type_specification]
#[verifier::external_body]
pub struct ExValue(serde_json::Value);

/// `serde_json::Map`, opaque here.
#[verifier::external_type_specification]
#[verifier::external_body]
#[verifier::reject_recursive_types(K)]
#[verifier::reject_recursive_types(V)]
pub struct ExMap<K, V>(serde_json::Map<K, V>);

/// The JSON value that `bytes` hold as text, or the words for why they hold none.
pub uninterp spec fn json_of(bytes: Seq<u8>) -> Result<serde_json::Value, Seq<char>>;

/// The member of a JSON value under a name; none where it is no object.
pub uninterp spec fn json_member(
    value: serde_json::Value,
    name: Seq<char>,
) -> Option<serde_json::Value>;

/// The unsigned number that a JSON value is, where it is one of 64 bits.
pub uninterp spec fn json_u64(value: serde_json::Value) -> Option<u64>;

/// The text that a JSON value is, where it is one.
pub uninterp spec fn json_text(value: serde_json::Value) -> Option<Seq<char>>;

/// The items of a JSON value, where it is an array.
pub uninterp spec fn json_items(value: serde_json::Value) -> Option<Seq<serde_json::Value>>;

/// Calls `serde_json::from_slice` for a `serde_json::Value`, and `to_string` on its error. The
/// result depends on the bytes alone.
#[verifier::external_body]
pub(crate) fn parse_value(bytes: &[u8]) -> (r: Result<serde_json::Value, String>)
    ensures
        match r {
            Ok(value) => match json_of(bytes@) {
                Ok(named) => named == value,
                Err(_) => false,
            },
            Err(error) => match json_of(bytes@) {
                Ok(_) => false,
                Err(words) => words == error@,
            },
        },
{
    serde_json::from_slice(bytes).map_err(|error| error.to_string())
}

/// Calls `serde_json::Value::get` with a name. The result depends on the value and the name alone.
#[verifier::external_body]
pub(crate) fn member<'a>(value: &'a serde_json::Value, name: &str) -> (r: Option<
    &'a serde_json::Value,
>)
    ensures
        match r {
            Some(found) => json_member(*value, name@) == Some(*found),
            None => json_member(*value, name@) is None,
        },
{
    value.get(name)
}

/// Calls `serde_json::Value::as_u64`. The result depends on the value alone.
#[verifier::external_body]
pub(crate) fn as_u64(value: &serde_json::Value) -> (r: Option<u64>)
    ensures
        r == json_u64(*value),
{
    value.as_u64()
}

/// Calls `serde_json::Value::as_str`. The result depends on the value alone.
#[verifier::external_body]
pub(crate) fn as_text(value: &serde_json::Value) -> (r: Option<String>)
    ensures
        match r {
            Some(text) => json_text(*value) == Some(text@),
            None => json_text(*value) is None,
        },
{
    value.as_str().map(|text| text.to_owned())
}

/// Calls `serde_json::Value::as_array`. The result depends on the value alone.
#[verifier::external_body]
pub(crate) fn as_items(value: &serde_json::Value) -> (r: Option<&Vec<serde_json::Value>>)
    ensures
        match r {
            Some(items) => json_items(*value) == Some(items@),
            None => json_items(*value) is None,
        },
{
    value.as_array()
}

/// What a member of a JSON object holds, as far as this library writes members.
pub ghost enum JsonMember {
    Text(Seq<char>),
    Count(u64),
    Other,
}

/// The members of a JSON object.
pub uninterp spec fn json_members(map: serde_json::Map<String, serde_json::Value>) -> Map<
    Seq<char>,
    JsonMember,
>;

/// Calls `serde_json::Map::new`: an object without members.
#[verifier::external_body]
pub(crate) fn object_new() -> (r: serde_json::Map<String, serde_json::Value>)
    ensures
        json_members(r).dom() == Set::<Seq<char>>::empty(),
{
    serde_json::Map::new()
}

/// Calls `serde_json::Map::insert` with a string: the member `name` now holds `text`, all other
/// members are as before.
#[verifier::external_body]
pub(crate) fn object_insert_text(
    map: &mut serde_json::Map<String, serde_json::Value>,
    name: &str,
    text: &str,
)
    ensures
        json_members(*final(map)) == json_members(*old(map)).insert(
            name@,
            JsonMember::Text(text@),
        ),
{
    map.insert(name.to_owned(), serde_json::Value::String(text.to_owned()));
}

/// Calls `serde_json::Map::insert` with a number: the member `name` now holds `count`, all other
/// members are as before.
#[verifier::external_body]
pub(crate) fn object_insert_count(
    map: &mut serde_json::Map<String, serde_json::Value>,
    name: &str,
    count: u64,
)
    ensures
        json_members(*final(map)) == json_members(*old(map)).insert(
            name@,
            JsonMember::Count(count),
        ),
{
    map.insert(name.to_owned(), serde_json::Value::Number(serde_json::Number::from(count)));
}

/// The members of a JSON value, where it is an object.
pub uninterp spec fn json_object(value: serde_json::Value) -> Option<
    serde_json::Map<String, serde_json::Value>,
>;

/// Takes the members out of a `serde_json::Value`, where it is its variant for objects.
#[verifier::external_body]
pub(crate) fn into_object(value: serde_json::Value) -> (r: Option<
    serde_json::Map<String, serde_json::Value>,
>)
    ensures
        r == json_object(value),
{
    match value {
        serde_json::Value::Object(map) => Some(map),
        _ => None,
    }
}

/// The JSON value that is an object with these members.
pub uninterp spec fn json_value_of(
    map: serde_json::Map<String, serde_json::Value>,
) -> serde_json::Value;

/// Makes the variant for objects of `serde_json::Value` from its members.
#[verifier::external_body]
fn object_value(map: serde_json::Map<String, serde_json::Value>) -> (r: serde_json::Value)
    ensures
        r == json_value_of(map),
        json_object(r) == Some(map),
{
    serde_json::Value::Object(map)
}

/// The compact text of a JSON value.
pub uninterp spec fn value_text_of(value: serde_json::Value) -> Seq<char>;

/// Calls `to_string` on a `serde_json::Value`, that is its `Display`. The text depends on the value
/// alone.
#[verifier::external_body]
pub(crate) fn value_text(value: &serde_json::Value) -> (r: String)
    ensures
        r@ == value_text_of(*value),
{
    value.to_string()
}

/// The text of a JSON value over several lines, or the words for why it has none.
pub uninterp spec fn pretty_text_of(value: serde_json::Value) -> Result<Seq<char>, Seq<char>>;

/// Calls `serde_json::to_string_pretty` for a `serde_json::Value`, and `to_string` on its error.
/// The result depends on the value alone.
#[verifier::external_body]
pub(crate) fn pretty_text(value: &serde_json::Value) -> (r: Result<String, String>)
    ensures
        match r {
            Ok(text) => match pretty_text_of(*value) {
                Ok(named) => named == text@,
                Err(_) => false,
            },
            Err(error) => match pretty_text_of(*value) {
                Ok(_) => false,
                Err(words) => words == error@,
            },
        },
{
    serde_json::to_string_pretty(value).map_err(|error| error.to_string())
}

/// The compact text of a JSON object.
pub fn object_text(map: serde_json::Map<String, serde_json::Value>) -> (r: String)
    ensures
        r@ == value_text_of(json_value_of(map)),
{
    value_text(&object_value(map))
}

}
