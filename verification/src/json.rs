//! JSON values, as `serde_json` reads, builds and writes them.
use serde_json::Value;
use vstd::prelude::*;

verus! {

/// A JSON value of `serde_json`.
#[verifier::external_type_specification]
#[verifier::external_body]
pub struct ExValue(serde_json::Value);

/// What a JSON value is.
pub enum Json {
    Null,
    Bool(bool),
    /// A number that is an integer from 0 up.
    Unsigned(u64),
    /// A number that is an integer below 0.
    Negative(i64),
    /// Any other number, by the bits of its 64-bit floating point form.
    Float(u64),
    Str(Seq<char>),
    Array(Seq<Json>),
    Object(Map<Seq<char>, Json>),
}

/// What a `serde_json::Value` holds.
pub uninterp spec fn json(value: Value) -> Json;

/// What a list of `serde_json::Value` holds.
pub open spec fn jsons(values: Seq<Value>) -> Seq<Json> {
    values.map_values(|v: Value| json(v))
}

/// The JSON value that `serde_json::from_slice` reads from `bytes`, or the
/// message of its error.
pub uninterp spec fn json_document(bytes: Seq<u8>) -> Result<Json, Seq<char>>;

/// The bytes that `serde_json::to_vec` writes for a JSON value, or the message
/// of its error.
pub uninterp spec fn json_bytes(value: Json) -> Result<Seq<u8>, Seq<char>>;

/// Whether no two of the fields have the same name.
pub open spec fn distinct(fields: Seq<(Seq<char>, Json)>) -> bool {
    forall|i: int, j: int|
        0 <= i < j < fields.len() ==> (#[trigger] fields[i]).0 != (#[trigger] fields[j]).0
}

/// The object with the given fields, whose names are distinct.
pub open spec fn object_of(fields: Seq<(Seq<char>, Json)>) -> Json {
    Json::Object(fields_of(fields))
}

/// The given fields, whose names are distinct, by name.
pub open spec fn fields_of(fields: Seq<(Seq<char>, Json)>) -> Map<Seq<char>, Json>
    decreases fields.len(),
{
    if fields.len() == 0 {
        Map::empty()
    } else {
        fields_of(fields.drop_last()).insert(fields.last().0, fields.last().1)
    }
}

/// The names and the values of a list of fields.
pub open spec fn field_views(fields: Seq<(String, Value)>) -> Seq<(Seq<char>, Json)> {
    fields.map_values(|f: (String, Value)| (f.0@, json(f.1)))
}

/// The field `name` of an object.
pub open spec fn field(value: Json, name: Seq<char>) -> Option<Json> {
    match value {
        Json::Object(fields) => if fields.contains_key(name) {
            Some(fields[name])
        } else {
            None
        },
        _ => None,
    }
}

/// `serde_json::from_slice`, into a `serde_json::Value`, depends on the bytes
/// alone: they give either a value or an error, of which the message is kept.
#[verifier::external_body]
pub(crate) fn json_from_slice(bytes: &[u8]) -> (r: Result<Value, String>)
    ensures
        match r {
            Ok(value) => json_document(bytes@) == Ok::<Json, Seq<char>>(json(value)),
            Err(e) => json_document(bytes@) == Err::<Json, Seq<char>>(e@),
        },
{
    serde_json::from_slice(bytes).map_err(|e| e.to_string())
}

/// `serde_json::to_vec`, of a `serde_json::Value`, depends on what the value
/// holds alone: that gives either bytes or an error, of which the message is
/// kept.
#[verifier::external_body]
pub(crate) fn json_to_vec(value: &Value) -> (r: Result<Vec<u8>, String>)
    ensures
        match r {
            Ok(bytes) => json_bytes(json(*value)) == Ok::<Seq<u8>, Seq<char>>(bytes@),
            Err(e) => json_bytes(json(*value)) == Err::<Seq<u8>, Seq<char>>(e@),
        },
{
    serde_json::to_vec(value).map_err(|e| e.to_string())
}

/// `serde_json::Value::get`, with a string, gives the field of that name where
/// the value is an object that has one.
#[verifier::external_body]
pub(crate) fn json_get<'a>(value: &'a Value, name: &str) -> (r: Option<&'a Value>)
    ensures
        match r {
            Some(v) => field(json(*value), name@) == Some(json(*v)),
            None => field(json(*value), name@) is None,
        },
{
    value.get(name)
}

/// `serde_json::Value::as_u64` gives the number where the value is an integer
/// from 0 up.
#[verifier::external_body]
pub(crate) fn json_as_u64(value: &Value) -> (r: Option<u64>)
    ensures
        match r {
            Some(n) => json(*value) == Json::Unsigned(n),
            None => !(json(*value) is Unsigned),
        },
{
    value.as_u64()
}

/// `serde_json::Value::as_str` gives the text where the value is a string.
#[verifier::external_body]
pub(crate) fn json_as_str<'a>(value: &'a Value) -> (r: Option<&'a str>)
    ensures
        match r {
            Some(s) => json(*value) == Json::Str(s@),
            None => !(json(*value) is Str),
        },
{
    value.as_str()
}

/// `serde_json::Value::as_bool` gives the truth value where the value is one.
#[verifier::external_body]
pub(crate) fn json_as_bool(value: &Value) -> (r: Option<bool>)
    ensures
        match r {
            Some(b) => json(*value) == Json::Bool(b),
            None => !(json(*value) is Bool),
        },
{
    value.as_bool()
}

/// `serde_json::Value::from`, of a `u64`, gives that number.
#[verifier::external_body]
pub(crate) fn json_number(n: u64) -> (r: Value)
    ensures
        json(r) == Json::Unsigned(n),
{
    Value::from(n)
}

/// `serde_json::Value::from`, of a `bool`, gives that truth value.
#[verifier::external_body]
pub(crate) fn json_bool(b: bool) -> (r: Value)
    ensures
        json(r) == Json::Bool(b),
{
    Value::from(b)
}

/// `serde_json::Value::from`, of a `&str`, gives that string.
#[verifier::external_body]
pub(crate) fn json_string(s: &str) -> (r: Value)
    ensures
        json(r) == Json::Str(s@),
{
    Value::from(s)
}

/// `serde_json::Value::from`, of a list of values, gives the array of them.
#[verifier::external_body]
pub(crate) fn json_array(items: Vec<Value>) -> (r: Value)
    ensures
        json(r) == Json::Array(jsons(items@)),
{
    Value::from(items)
}

/// `serde_json::Value::from_iter`, of distinct names with their values, gives the
/// object with those fields and no others.
#[verifier::external_body]
pub(crate) fn json_object(fields: Vec<(String, Value)>) -> (r: Value)
    requires
        distinct(field_views(fields@)),
    ensures
        json(r) == object_of(field_views(fields@)),
{
    Value::from_iter(fields)
}

/// An object made of fields with distinct names has each of them, and no others.
pub proof fn law_object_has_its_fields(fields: Seq<(Seq<char>, Json)>, name: Seq<char>)
    requires
        distinct(fields),
    ensures
        forall|i: int|
            0 <= i < fields.len() ==> field(object_of(fields), (#[trigger] fields[i]).0) == Some(
                fields[i].1,
            ),
        field(object_of(fields), name) is Some ==> exists|i: int|
            0 <= i < fields.len() && (#[trigger] fields[i]).0 == name,
    decreases fields.len(),
{
    if fields.len() > 0 {
        let before = fields.drop_last();
        assert(distinct(before)) by {
            assert forall|i: int, j: int| 0 <= i < j < before.len() implies (
            #[trigger] before[i]).0 != (#[trigger] before[j]).0 by {
                assert(fields[i].0 != fields[j].0);
            }
        }
        law_object_has_its_fields(before, name);
        assert forall|i: int| 0 <= i < fields.len() implies field(
            object_of(fields),
            (#[trigger] fields[i]).0,
        ) == Some(fields[i].1) by {
            if i < before.len() {
                assert(before[i] == fields[i]);
                assert(fields[i].0 != fields[fields.len() - 1].0);
            }
        }
        if field(object_of(fields), name) is Some {
            if name == fields.last().0 {
                assert(fields[fields.len() - 1].0 == name);
            } else {
                let i = choose|i: int| 0 <= i < before.len() && (#[trigger] before[i]).0 == name;
                assert(fields[i].0 == name);
            }
        }
    }
}

} // verus!
