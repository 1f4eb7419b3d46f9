//! JSON values and objects, as the `serde_json` crate reads, builds and writes them.
use vstd::prelude::*;

verus! {

/// What a JSON value holds.
pub enum Json {
    Null,
    Boolean(bool),
    /// A number without a fraction or an exponent that fits 64 bits.
    Integer(int),
    /// Any other number, by the text that it is written as.
    Decimal(Seq<char>),
    Text(Seq<char>),
    Array(Seq<Json>),
    Object(Map<Seq<char>, Json>),
}

/// The members of the empty object.
pub open spec fn no_members() -> Map<Seq<char>, Json> {
    Map::empty()
}

/// The member of that name, where the value is an object that has one.
pub open spec fn member_of(json: Json, key: Seq<char>) -> Option<Json> {
    match json {
        Json::Object(fields) => if fields.contains_key(key) {
            Some(fields[key])
        } else {
            None
        },
        _ => None,
    }
}

/// The text of the member of that name, where there is one and it is a text.
pub open spec fn text_member(json: Json, key: Seq<char>) -> Option<Seq<char>> {
    match member_of(json, key) {
        Some(Json::Text(text)) => Some(text),
        _ => None,
    }
}

/// Whether every member is a text or an integer, under a name that does not begin with `$`.
pub open spec fn is_flat(fields: Map<Seq<char>, Json>) -> bool {
    forall|key: Seq<char>| #[trigger]
        fields.contains_key(key) ==> {
            &&& fields[key] is Text || fields[key] is Integer
            &&& key.len() > 0 ==> key[0] != '$'
        }
}

/// `serde_json::Value`, an opaque JSON value.
#[verifier::external_type_specification]
#[verifier::external_body]
pub struct ExJsonValue(serde_json::Value);

/// `serde_json::Map`, an opaque JSON object.
#[verifier::external_type_specification]
#[verifier::external_body]
#[verifier::reject_recursive_types(K)]
#[verifier::reject_recursive_types(V)]
pub struct ExJsonMap<K, V>(serde_json::Map<K, V>);

/// A JSON object.
pub type JsonObject = serde_json::Map<String, serde_json::Value>;

/// What a `serde_json::Value` holds, its items and members included.
pub uninterp spec fn json_of(value: serde_json::Value) -> Json;

/// The members that a `serde_json::Map` holds, by their names.
pub uninterp spec fn members(
    object: JsonObject,
) -> Map<Seq<char>, Json>;

/// What `serde_json::from_str` reads from a text as one JSON value; `None` where it fails.
pub uninterp spec fn parsed_json(text: Seq<char>) -> Option<Json>;

/// What `serde_json::from_slice` reads from bytes as one JSON object; where it fails, the text of
/// its error.
pub uninterp spec fn parsed_object(
    bytes: Seq<u8>,
) -> Result<Map<Seq<char>, Json>, Seq<char>>;

/// The text that `serde_json::to_string` writes for an object with these members. It depends on the
/// members alone only while the feature `preserve_order` of `serde_json` is off, as it is here: the
/// members are then kept, and written, in the order of their names. With the feature on they would be
/// written in the order in which they were put in.
pub uninterp spec fn json_text(fields: Map<Seq<char>, Json>) -> Seq<char>;

/// An object, or the text of an error, by what each holds.
pub open spec fn outcome_of(
    outcome: Result<JsonObject, String>,
) -> Result<Map<Seq<char>, Json>, Seq<char>> {
    match outcome {
        Ok(object) => Ok(members(object)),
        Err(error) => Err(error@),
    }
}

/// `serde_json::Value::is_null` says whether the value is JSON's null.
pub assume_specification[ serde_json::Value::is_null ](value: &serde_json::Value) -> (found: bool)
    ensures
        found == (json_of(*value) is Null),
;

/// `serde_json::Value::is_array` says whether the value is an array.
pub assume_specification[ serde_json::Value::is_array ](value: &serde_json::Value) -> (found: bool)
    ensures
        found == (json_of(*value) is Array),
;

/// `serde_json::Value::as_str` gives the text of a value that is a text, and nothing otherwise.
pub assume_specification[ serde_json::Value::as_str ](value: &serde_json::Value) -> (text: Option<
    &str,
>)
    ensures
        text matches Some(t) ==> json_of(*value) == Json::Text(t@),
        text is None ==> !(json_of(*value) is Text),
;

/// `serde_json::Value::get` with a name gives the object's member of that name; it gives nothing
/// where there is none or the value is no object.
#[verifier::external_body]
pub(crate) fn member<'a>(value: &'a serde_json::Value, key: &str) -> (found: Option<
    &'a serde_json::Value,
>)
    ensures
        found matches Some(m) ==> member_of(json_of(*value), key@) == Some(json_of(*m)),
        found is None ==> member_of(json_of(*value), key@) is None,
{
    value.get(key)
}

/// `serde_json::Value::from` a `String` is that text.
#[verifier::external_body]
pub(crate) fn text_value(text: String) -> (value: serde_json::Value)
    ensures
        json_of(value) == Json::Text(text@),
{
    serde_json::Value::from(text)
}

/// `serde_json::Value::from` an `i64` is that integer.
#[verifier::external_body]
pub(crate) fn integer_value(number: i64) -> (value: serde_json::Value)
    ensures
        json_of(value) == Json::Integer(number as int),
{
    serde_json::Value::from(number)
}

/// `serde_json::Map::new` makes an object without members.
#[verifier::external_body]
pub(crate) fn new_object() -> (object: JsonObject)
    ensures
        members(object) == no_members(),
{
    serde_json::Map::new()
}

/// `serde_json::Map::insert` gives the member of that name its new value and leaves the other
/// members as they are.
#[verifier::external_body]
pub(crate) fn insert_member(
    object: &mut JsonObject,
    key: String,
    value: serde_json::Value,
)
    ensures
        members(*final(object)) == members(*old(object)).insert(key@, json_of(value)),
{
    object.insert(key, value);
}

/// `serde_json::Map::is_empty` says whether the object has no members.
#[verifier::external_body]
pub(crate) fn has_no_members(object: &JsonObject) -> (empty: bool)
    ensures
        empty == (members(*object) == no_members()),
{
    object.is_empty()
}

/// `serde_json::from_str` reads a text as one JSON value; what it reads is `parsed_json` of the
/// text.
#[verifier::external_body]
pub(crate) fn parse_json(text: &str) -> (value: Option<serde_json::Value>)
    ensures
        value matches Some(v) ==> parsed_json(text@) == Some(json_of(v)),
        value is None ==> parsed_json(text@) is None,
{
    serde_json::from_str(text).ok()
}

/// `serde_json::from_slice` reads bytes as one JSON object; what it reads, or the text of its
/// error, is `parsed_object` of the bytes.
#[verifier::external_body]
pub(crate) fn parse_object(bytes: &[u8]) -> (object: Result<
    JsonObject,
    String,
>)
    ensures
        outcome_of(object) == parsed_object(bytes@),
{
    serde_json::from_slice(bytes).map_err(|error| error.to_string())
}

/// `serde_json::to_string` writes an object as compact JSON, which never fails for an object of
/// texts and integers: the text is `json_text` of the members, holds no line feed, and reads back
/// as the same object. A name that begins with `$` may be one that the crate keeps for itself, so
/// an object with such a name is left out.
#[verifier::external_body]
pub(crate) fn object_text(object: &JsonObject) -> (text: Result<String, String>)
    requires
        is_flat(members(*object)),
    ensures
        text is Ok,
        text->Ok_0@ == json_text(members(*object)),
        !text->Ok_0@.contains('\n'),
        parsed_json(text->Ok_0@) == Some(Json::Object(members(*object))),
{
    serde_json::to_string(object).map_err(|error| error.to_string())
}

} // verus!
