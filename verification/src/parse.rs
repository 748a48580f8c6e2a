use vstd::prelude::*;

use crate::value::{JsonModel, JsonValue, TypeRecord};

verus! {

/// What parsing one line yields, abstracted to the library's model:
/// `None` when the line is not a syntactically valid JSON object,
/// otherwise the top-level fields in the order the parser's map yields
/// them.  The result is a function of the line alone.
pub uninterp spec fn parse_of(line: Seq<char>) -> Option<Seq<(Seq<char>, JsonModel)>>;

#[verifier::external_type_specification]
#[verifier::external_body]
pub struct ExValue(serde_json::Value);

/// Relies on `serde_json::from_str` deserializing into
/// `serde_json::Map<String, Value>`: it returns `Ok` exactly when the
/// whole line is one syntactically valid JSON object, and the result is
/// a function of the line alone (the map is a `BTreeMap`, so its
/// iteration order is determined by the keys).  The parsed fields,
/// abstracted by [`convert_value`], are named by [`parse_of`].
#[verifier::external_body]
pub(crate) fn parse_record(line: &String) -> (r: Option<TypeRecord>)
    ensures
        r is Some <==> parse_of(line@) is Some,
        r matches Some(record) ==> parse_of(line@) == Some(record@),
{
    match serde_json::from_str::<serde_json::Map<String, serde_json::Value>>(line.as_str()) {
        Ok(map) => {
            let mut fields: Vec<(String, JsonValue)> = Vec::new();
            for (name, val) in &map {
                fields.push((name.clone(), convert_value(val)));
            }
            Some(TypeRecord { fields })
        },
        Err(_) => None,
    }
}

/// Relies only on the shape of `serde_json::Value`: rebuilds a parsed
/// value in the library's model, keeping strings and nested objects and
/// collapsing numbers, booleans and arrays into opaque leaves, exactly
/// as the size policy reads them.
#[verifier::external_body]
fn convert_value(v: &serde_json::Value) -> JsonValue {
    match v {
        serde_json::Value::Null => JsonValue::Null,
        serde_json::Value::String(text) => JsonValue::Text(text.clone()),
        serde_json::Value::Object(map) => {
            let mut fields: Vec<(String, JsonValue)> = Vec::new();
            for (name, val) in map {
                fields.push((name.clone(), convert_value(val)));
            }
            JsonValue::Mapping(fields)
        },
        _ => JsonValue::Leaf,
    }
}

} // verus!
