//! The trusted boundary to `serde_json`: the structured-document type used
//! for requests and user-facing summaries is `serde_json::Value`, opaque to
//! the verifier and carried through the library behind the small set of
//! wrappers below. What an object or array holds, and which value building
//! a document returns, are given names here, so that the contracts of the
//! verified functions working on plain `(String, Value)` pairs can be
//! exact. The wrapper bodies only decompose, rebuild and clone values.

use vstd::prelude::*;

verus! {

#[verifier::external_type_specification]
#[verifier::external_body]
pub struct ExValue(serde_json::Value);

/// The key/value fields a JSON value holds when it is an object, in
/// iteration order (ascending by key, each key once), and nothing when it
/// is any other kind of value.
pub uninterp spec fn obj_fields(v: serde_json::Value) -> Option<
    Seq<(Seq<char>, serde_json::Value)>,
>;

/// The elements a JSON value holds when it is an array, in order, and
/// nothing when it is any other kind of value.
pub uninterp spec fn arr_elems(v: serde_json::Value) -> Option<Seq<serde_json::Value>>;

/// The JSON object built by inserting the given fields in order, a later
/// field replacing an earlier one of the same key.
pub uninterp spec fn object_of(fields: Seq<(Seq<char>, serde_json::Value)>) -> serde_json::Value;

/// The JSON number carrying the given integer.
pub uninterp spec fn number_of(v: int) -> serde_json::Value;

/// The JSON string carrying the given characters.
pub uninterp spec fn string_of(s: Seq<char>) -> serde_json::Value;

/// The diagnostic rendering of a JSON value.
pub uninterp spec fn rendering_of(v: serde_json::Value) -> Seq<char>;

/// A document's fields, each key as its character sequence.
pub open spec fn fields_view(entries: Seq<(String, serde_json::Value)>) -> Seq<
    (Seq<char>, serde_json::Value),
> {
    entries.map_values(|e: (String, serde_json::Value)| (e.0@, e.1))
}

/// The value of the first field named `key`, if any.
pub open spec fn lookup_field(
    fields: Seq<(Seq<char>, serde_json::Value)>,
    key: Seq<char>,
) -> Option<serde_json::Value>
    decreases fields.len(),
{
    if fields.len() == 0 {
        None
    } else if fields[0].0 == key {
        Some(fields[0].1)
    } else {
        lookup_field(fields.drop_first(), key)
    }
}

/// Relies on `serde_json::Value: Clone`: a clone of a JSON value is the
/// same value.
#[verifier::external_body]
pub fn json_clone(v: &serde_json::Value) -> (r: serde_json::Value)
    ensures
        r == *v,
{
    v.clone()
}

/// Relies on `serde_json::Value::get` with a string index: a key looked up
/// among the fields of an object, nothing for any other kind of value; the
/// field's value is returned as a clone.
#[verifier::external_body]
pub fn json_get_field(v: &serde_json::Value, name: &str) -> (r: Option<serde_json::Value>)
    ensures
        r == match obj_fields(*v) {
            Some(fields) => lookup_field(fields, name@),
            None => None::<serde_json::Value>,
        },
{
    v.get(name).cloned()
}

/// Relies on `serde_json::Value::as_object`: the fields of an object in
/// iteration order (ascending by key), `None` for any other kind of value.
#[verifier::external_body]
pub fn json_object_entries(v: &serde_json::Value) -> (r: Option<
    Vec<(String, serde_json::Value)>,
>)
    ensures
        match obj_fields(*v) {
            Some(fields) => r matches Some(es) && fields_view(es@) == fields,
            None => r is None,
        },
{
    match v.as_object() {
        Some(map) => Some(map.iter().map(|(k, val)| (k.clone(), val.clone())).collect()),
        None => None,
    }
}

/// Relies on `serde_json::Value::as_array`: the elements of an array in
/// order, `None` for any other kind of value.
#[verifier::external_body]
pub fn json_as_array(v: &serde_json::Value) -> (r: Option<Vec<serde_json::Value>>)
    ensures
        match arr_elems(*v) {
            Some(elems) => r matches Some(out) && out@ == elems,
            None => r is None,
        },
{
    match v.as_array() {
        Some(values) => Some(values.to_vec()),
        None => None,
    }
}

/// Relies on `serde_json::Map::insert` and `serde_json::Value::Object`:
/// rebuilds an object value from fields; a later field with the same key
/// replaces an earlier one.
#[verifier::external_body]
pub fn json_object_from_entries(entries: Vec<(String, serde_json::Value)>) -> (r:
    serde_json::Value)
    ensures
        r == object_of(fields_view(entries@)),
{
    let mut map = serde_json::Map::new();
    for (k, v) in entries {
        map.insert(k, v);
    }
    serde_json::Value::Object(map)
}

/// Relies on `serde_json::Value::from` for integers: wraps a number as a
/// JSON value.
#[verifier::external_body]
pub fn json_from_i64(v: i64) -> (r: serde_json::Value)
    ensures
        r == number_of(v as int),
{
    serde_json::Value::from(v)
}

/// Relies on `serde_json::Value::from` for strings: wraps a string as a
/// JSON value.
#[verifier::external_body]
pub fn json_from_string(v: String) -> (r: serde_json::Value)
    ensures
        r == string_of(v@),
{
    serde_json::Value::from(v)
}

/// Relies on the `Debug` impl of `serde_json::Value`: a rendering of the
/// value for diagnostic messages, a pure function of the value.
#[verifier::external_body]
pub fn json_debug_string(v: &serde_json::Value) -> (r: String)
    ensures
        r@ == rendering_of(*v),
{
    format!("{:?}", v)
}

} // verus!
