//! JSON documents as plain values.
//!
//! Incoming frames are JSON text. The text is handed to `serde_json` once,
//! behind a trusted boundary, and comes back as a [`JsonValue`] of the
//! library's own: everything the frame handlers read afterwards is ordinary
//! verified code over this type.

use crate::decimal::Decimal;
use crate::decimal::parse_decimal;
use crate::decimal::spec_parse_decimal;
use crate::strutil::str_eq;
use vstd::prelude::*;

verus! {

/// A parsed JSON document, held in plain values.
///
/// Numbers are held as `i64`: the wire formats handled here transmit every
/// fractional quantity as a string, so the only numbers that occur are
/// integer identifiers and timestamps. A number outside `i64` (or a
/// non-integer number) is carried as `Null`.
#[derive(Debug)]
pub enum JsonValue {
    Null,
    Bool(bool),
    Int(i64),
    Str(String),
    Arr(Vec<JsonValue>),
    Obj(Vec<(String, JsonValue)>),
}

/// The [`JsonValue`] that [`json_parse`] yields on a given text, or `None`
/// where the text is not a JSON document. The result is a function of the
/// text alone.
pub uninterp spec fn spec_json_parse(s: Seq<char>) -> Option<JsonValue>;

#[verifier::external_type_specification]
#[verifier::external_body]
pub struct ExValue(serde_json::Value);

/// Relies on `serde_json::Value`'s six variants and on
/// `serde_json::Number::as_i64`: carries a parsed tree over into the
/// library's own model, variant by variant, moving the payloads. Numbers
/// that do not fit an `i64` become `Null`.
#[verifier::external_body]
fn value_to_json(v: serde_json::Value) -> JsonValue {
    match v {
        serde_json::Value::Null => JsonValue::Null,
        serde_json::Value::Bool(b) => JsonValue::Bool(b),
        serde_json::Value::Number(n) => match n.as_i64() {
            Some(i) => JsonValue::Int(i),
            None => JsonValue::Null,
        },
        serde_json::Value::String(s) => JsonValue::Str(s),
        serde_json::Value::Array(a) => JsonValue::Arr(a.into_iter().map(value_to_json).collect()),
        serde_json::Value::Object(o) => JsonValue::Obj(
            o.into_iter().map(|(k, w)| (k, value_to_json(w))).collect(),
        ),
    }
}

/// Relies on `serde_json::from_str`: parses the text as one JSON document,
/// deterministically in the text; `Err` exactly on malformed documents.
/// The parsed tree is carried over by [`value_to_json`].
#[verifier::external_body]
pub fn json_parse(s: &str) -> (r: Option<JsonValue>)
    ensures
        r == spec_json_parse(s@),
{
    match serde_json::from_str::<serde_json::Value>(s) {
        Ok(v) => Some(value_to_json(v)),
        Err(_) => None,
    }
}

/// The value under `key` among `entries`, first match.
pub open spec fn spec_obj_get(entries: Seq<(String, JsonValue)>, key: Seq<char>) -> Option<
    JsonValue,
>
    decreases entries.len(),
{
    if entries.len() == 0 {
        None
    } else if entries[0].0@ == key {
        Some(entries[0].1)
    } else {
        spec_obj_get(entries.skip(1), key)
    }
}

/// The member of object `v` under `key`; `None` when `v` is no object or
/// has no such member.
pub open spec fn spec_get(v: JsonValue, key: Seq<char>) -> Option<JsonValue> {
    match v {
        JsonValue::Obj(entries) => spec_obj_get(entries@, key),
        _ => None,
    }
}

impl JsonValue {
    /// Look up a member of a JSON object by key.
    pub fn get<'a>(&'a self, key: &str) -> (r: Option<&'a JsonValue>)
        ensures
            match r {
                Some(w) => spec_get(*self, key@) == Some(*w),
                None => spec_get(*self, key@) is None,
            },
    {
        match self {
            JsonValue::Obj(entries) => {
                let n = entries.len();
                proof {
                    assert(entries@.skip(0) =~= entries@);
                }
                let mut i: usize = 0;
                while i < n
                    invariant
                        0 <= i <= n,
                        n == entries@.len(),
                        spec_obj_get(entries@.skip(i as int), key@) == spec_obj_get(
                            entries@,
                            key@,
                        ),
                        spec_get(*self, key@) == spec_obj_get(entries@, key@),
                    decreases n - i,
                {
                    let pair = &entries[i];
                    if str_eq(pair.0.as_str(), key) {
                        proof {
                            let sk = entries@.skip(i as int);
                            assert(sk[0] == entries@[i as int]);
                            assert(sk.len() > 0);
                            assert(spec_obj_get(sk, key@) == Some(entries@[i as int].1));
                        }
                        return Some(&entries[i].1);
                    }
                    proof {
                        assert(entries@.skip(i as int).skip(1) =~= entries@.skip(i + 1));
                        assert(entries@.skip(i as int)[0] == entries@[i as int]);
                    }
                    i = i + 1;
                }
                proof {
                    assert(entries@.skip(n as int) =~= Seq::empty());
                }
                None
            },
            _ => None,
        }
    }
}

/// The string member of object `v` under `key`.
pub open spec fn spec_str_field(v: JsonValue, key: Seq<char>) -> Option<Seq<char>> {
    match spec_get(v, key) {
        Some(JsonValue::Str(s)) => Some(s@),
        _ => None,
    }
}

/// The integer member of object `v` under `key`.
pub open spec fn spec_i64_field(v: JsonValue, key: Seq<char>) -> Option<i64> {
    match spec_get(v, key) {
        Some(JsonValue::Int(i)) => Some(i),
        _ => None,
    }
}

/// The nonnegative integer member of object `v` under `key`, as a `u64`.
pub open spec fn spec_u64_field(v: JsonValue, key: Seq<char>) -> Option<u64> {
    match spec_get(v, key) {
        Some(JsonValue::Int(i)) => if i >= 0 {
            Some(i as u64)
        } else {
            None
        },
        _ => None,
    }
}

/// The boolean member of object `v` under `key`.
pub open spec fn spec_bool_field(v: JsonValue, key: Seq<char>) -> Option<bool> {
    match spec_get(v, key) {
        Some(JsonValue::Bool(b)) => Some(b),
        _ => None,
    }
}

/// The string member of object `v` under `key`, read as a decimal.
pub open spec fn spec_dec_field(v: JsonValue, key: Seq<char>) -> Option<Decimal> {
    match spec_str_field(v, key) {
        Some(s) => spec_parse_decimal(s),
        None => None,
    }
}

/// Typed member access: the string under `key`.
pub fn str_field<'a>(v: &'a JsonValue, key: &str) -> (r: Option<&'a String>)
    ensures
        match r {
            Some(s) => spec_str_field(*v, key@) == Some(s@),
            None => spec_str_field(*v, key@) is None,
        },
{
    match v.get(key) {
        Some(JsonValue::Str(s)) => Some(s),
        _ => None,
    }
}

/// Typed member access: the integer under `key`.
pub fn i64_field(v: &JsonValue, key: &str) -> (r: Option<i64>)
    ensures
        r == spec_i64_field(*v, key@),
{
    match v.get(key) {
        Some(JsonValue::Int(i)) => Some(*i),
        _ => None,
    }
}

/// Typed member access: the nonnegative integer under `key`, as a `u64`.
pub fn u64_field(v: &JsonValue, key: &str) -> (r: Option<u64>)
    ensures
        r == spec_u64_field(*v, key@),
{
    match v.get(key) {
        Some(JsonValue::Int(i)) => {
            if *i >= 0 {
                Some(*i as u64)
            } else {
                None
            }
        },
        _ => None,
    }
}

/// Typed member access: the boolean under `key`.
pub fn bool_field(v: &JsonValue, key: &str) -> (r: Option<bool>)
    ensures
        r == spec_bool_field(*v, key@),
{
    match v.get(key) {
        Some(JsonValue::Bool(b)) => Some(*b),
        _ => None,
    }
}

/// Typed member access: the string under `key`, parsed as a decimal.
pub fn dec_field(v: &JsonValue, key: &str) -> (r: Option<Decimal>)
    ensures
        r == spec_dec_field(*v, key@),
{
    match str_field(v, key) {
        Some(s) => parse_decimal(s.as_str()),
        None => None,
    }
}

/// Typed member access: the array under `key`.
pub fn arr_field<'a>(v: &'a JsonValue, key: &str) -> (r: Option<&'a Vec<JsonValue>>)
    ensures
        match r {
            Some(a) => spec_get(*v, key@) == Some(JsonValue::Arr(*a)),
            None => !(spec_get(*v, key@) matches Some(JsonValue::Arr(_))),
        },
{
    match v.get(key) {
        Some(JsonValue::Arr(a)) => Some(a),
        _ => None,
    }
}

} // verus!
