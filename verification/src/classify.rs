use vstd::prelude::*;

use crate::error::AppError;
use crate::parse::{parse_of, parse_record};
use crate::value::{
    except_type, fields_model, fields_size, lemma_except_type_skip, lemma_fields_model,
    lemma_fields_size_concat, lemma_fields_size_singleton, lemma_lookup_skip, lookup,
    payload_size, try_value_size, type_key, JsonModel, JsonValue,
};

verus! {

/// What classification decides about one line, at the specification
/// level: the line is not a JSON object, it lacks a `"type"` field, its
/// `"type"` field is not a string, or it is classified under a type name
/// with a payload size.
pub enum Verdict {
    Unparsable,
    NoType,
    TypeNotText,
    Classified(Seq<char>, nat),
}

/// The verdict on one raw line.
pub open spec fn verdict_of(line: Seq<char>) -> Verdict {
    match parse_of(line) {
        Option::None => Verdict::Unparsable,
        Option::Some(fields) => match lookup(fields, type_key()) {
            Option::None => Verdict::NoType,
            Option::Some(v) => match v {
                JsonModel::Text(name) => Verdict::Classified(name, payload_size(fields)),
                _ => Verdict::TypeNotText,
            },
        },
    }
}

/// What `classify_and_size` returns for a line, given its verdict.
pub open spec fn classification_matches(
    line: Seq<char>,
    r: Result<(String, u128), AppError>,
) -> bool {
    match verdict_of(line) {
        Verdict::Unparsable => r matches Err(AppError::SerdeJsonError(l)) && l@ == line,
        Verdict::NoType => r matches Err(AppError::NoFieldTypeInJson(l)) && l@ == line,
        Verdict::TypeNotText => r matches Err(AppError::FieldTypeIsNotString(l)) && l@ == line,
        Verdict::Classified(name, size) => r matches Ok(p) && p.0@ == name && p.1 == size,
    }
}

/// Index of the first field named "type", if any.
pub(crate) fn find_type(fields: &Vec<(String, JsonValue)>) -> (r: Option<usize>)
    ensures
        match r {
            Option::None => lookup(fields_model(fields@), type_key()) is None,
            Option::Some(i) => i < fields@.len() && fields@[i as int].0@ == type_key() && lookup(
                fields_model(fields@),
                type_key(),
            ) == Some(crate::value::value_model(fields@[i as int].1)),
        },
{
    let ghost m = fields_model(fields@);
    proof {
        lemma_fields_model(fields@);
    }
    let key: String = "type".to_owned();
    let mut i: usize = 0;
    while i < fields.len()
        invariant
            i <= fields.len(),
            key@ == type_key(),
            m == fields_model(fields@),
            m.len() == fields@.len(),
            forall|j: int|
                0 <= j < fields@.len() ==> #[trigger] m[j] == (
                fields@[j].0@,
                crate::value::value_model(fields@[j].1),
                ),
            forall|j: int| 0 <= j < i ==> m[j].0 != type_key(),
        decreases fields@.len() - i,
    {
        if fields[i].0 == key {
            proof {
                lemma_lookup_skip(m, type_key(), i as int);
                assert(m.skip(i as int)[0] == m[i as int]);
                assert(m.skip(i as int).len() > 0);
            }
            return Some(i);
        }
        i = i + 1;
    }
    proof {
        lemma_lookup_skip(m, type_key(), m.len() as int);
        assert(m.skip(m.len() as int) =~= Seq::<(Seq<char>, JsonModel)>::empty());
    }
    None
}

/// Sums the payload size of a record's fields (everything but the
/// discriminator) exactly, or reports that the sum does not fit in a
/// `u128`.
pub(crate) fn try_payload_size(fields: &Vec<(String, JsonValue)>) -> (r: Option<u128>)
    ensures
        r is Some <==> payload_size(fields_model(fields@)) <= u128::MAX,
        r matches Some(n) ==> n == payload_size(fields_model(fields@)),
{
    let ghost m = fields_model(fields@);
    proof {
        lemma_fields_model(fields@);
        assert(m.skip(0) =~= m);
    }
    let key: String = "type".to_owned();
    let mut total: u128 = 0;
    let mut i: usize = 0;
    while i < fields.len()
        invariant
            i <= fields.len(),
            key@ == type_key(),
            m == fields_model(fields@),
            m.len() == fields@.len(),
            forall|j: int|
                0 <= j < fields@.len() ==> #[trigger] m[j] == (
                fields@[j].0@,
                crate::value::value_model(fields@[j].1),
                ),
            payload_size(m) == total + fields_size(except_type(m.skip(i as int))),
        decreases fields@.len() - i,
    {
        proof {
            lemma_except_type_skip(m, i as int);
        }
        if fields[i].0 == key {
            i = i + 1;
            continue;
        }
        proof {
            lemma_fields_size_concat(seq![m[i as int]], except_type(m.skip(i as int + 1)));
            lemma_fields_size_singleton(m[i as int]);
        }
        match try_value_size(&fields[i].1) {
            None => {
                return None;
            },
            Some(n) => {
                match total.checked_add(n) {
                    None => {
                        return None;
                    },
                    Some(t) => {
                        total = t;
                    },
                }
            },
        }
        i = i + 1;
    }
    proof {
        assert(m.skip(fields@.len() as int) =~= Seq::<(Seq<char>, JsonModel)>::empty());
    }
    Some(total)
}

/// Turns one raw line into its type name and estimated payload size, or
/// fails with the reason: `SerdeJsonError` when the line is not a JSON
/// object, `NoFieldTypeInJson` when it has no `"type"` field,
/// `FieldTypeIsNotString` when that field is not a string.  Each error
/// carries the offending line.  Pure: no side effects.
pub fn classify_and_size(line: &String) -> (r: Result<(String, u128), AppError>)
    requires
        verdict_of(line@) matches Verdict::Classified(name, size) ==> size <= u128::MAX,
    ensures
        classification_matches(line@, r),
{
    match parse_record(line) {
        None => Err(AppError::SerdeJsonError(line.clone())),
        Some(record) => {
            match find_type(&record.fields) {
                None => Err(AppError::NoFieldTypeInJson(line.clone())),
                Some(i) => {
                    match &record.fields[i].1 {
                        JsonValue::Text(name) => {
                            let owned_name = name.clone();
                            match try_payload_size(&record.fields) {
                                Some(size) => Ok((owned_name, size)),
                                None => vstd::pervasive::unreached(),
                            }
                        },
                        _ => Err(AppError::FieldTypeIsNotString(line.clone())),
                    }
                },
            }
        },
    }
}

} // verus!
