//! Reading and writing JSON text, which `serde_json` does.

use serde_json::Value;
use vstd::prelude::*;
use crate::json::{JView, Json, Number, Object};
use crate::text;

verus! {

/// A parsed document of `serde_json`.
#[verifier::external_type_specification]
#[verifier::external_body]
pub struct ExValue(serde_json::Value);

/// Why `serde_json` refused a text.
#[verifier::external_type_specification]
#[verifier::external_body]
pub struct ExError(serde_json::Error);

/// What a `serde_json::Value` holds: objects with their keys ascending, integers as integers, and
/// any other number as the decimal text that `serde_json` writes it with.
pub uninterp spec fn json_in(value: serde_json::Value) -> JView;

/// The JSON document that a text spells, if it spells one.
pub uninterp spec fn parsed(source: Seq<char>) -> Option<JView>;

/// The compact text that spells a JSON value.
pub uninterp spec fn rendered(value: JView) -> Seq<char>;

/// How `serde_json` writes the floating-point number nearest to an integer.
pub uninterp spec fn float_spelling(n: u64) -> Seq<char>;

/// `serde_json::from_str` at `serde_json::Value`: whether a text is accepted, and what the
/// document then holds, depends on its characters alone.
#[verifier::external_body]
fn read_value(source: &str) -> (r: Result<serde_json::Value, serde_json::Error>)
    ensures
        match r {
            Ok(value) => parsed(source@) == Some(json_in(value)),
            Err(_) => parsed(source@) is None,
        },
{
    serde_json::from_str::<serde_json::Value>(source)
}

/// Takes a `serde_json::Value` apart, variant by variant, a number by `serde_json::Number`'s
/// `as_u64`, `as_i64` and `to_string`: the result is what the value holds.
#[verifier::external_body]
fn json_of(value: serde_json::Value) -> (r: Json)
    ensures
        r@ == json_in(value),
{
    match value {
        Value::Null => Json::Null,
        Value::Bool(b) => Json::Bool(b),
        Value::Number(n) => Json::Num(match (n.as_u64(), n.as_i64()) {
            (Some(u), _) => Number::PosInt(u),
            (_, Some(i)) => Number::NegInt(i),
            _ => Number::Float(n.to_string()),
        }),
        Value::String(s) => Json::Str(s),
        Value::Array(a) => Json::Arr(a.into_iter().map(json_of).collect()),
        Value::Object(m) => Json::Obj(
            Object { entries: m.into_iter().map(|(k, v)| (k, json_of(v))).collect() },
        ),
    }
}

/// Reads a JSON document; nothing where the text is not one.
pub fn parse(source: &str) -> (r: Option<Json>)
    ensures
        text::view_of(r) == parsed(source@),
{
    match read_value(source) {
        Ok(value) => Some(json_of(value)),
        Err(_) => None,
    }
}

/// Puts a `serde_json::Value` together, variant by variant. Nothing is stated of it: only
/// [`render`] uses it.
#[verifier::external_body]
fn value_of(j: &Json) -> serde_json::Value {
    match j {
        Json::Null => Value::Null,
        Json::Bool(b) => Value::Bool(*b),
        Json::Num(Number::PosInt(n)) => Value::from(*n),
        Json::Num(Number::NegInt(n)) => Value::from(*n),
        Json::Num(Number::Float(t)) => t.parse().ok().and_then(serde_json::Number::from_f64)
            .map_or(Value::Null, Value::Number),
        Json::Str(s) => Value::String(s.clone()),
        Json::Arr(items) => items.iter().map(value_of).collect(),
        Json::Obj(o) => o.entries.iter().map(|(k, v)| (k.clone(), value_of(v))).collect(),
    }
}

/// `serde_json::Value`'s `to_string`: the text depends on the value alone.
#[verifier::external_body]
pub(crate) fn render(j: &Json) -> (r: String)
    ensures
        r@ == rendered(j@),
{
    value_of(j).to_string()
}

/// `serde_json::Number::as_f64`, then `from_f64` and `to_string`: the text depends on the number
/// alone, and an integer that a floating-point number holds exactly is written out with `.0`.
#[verifier::external_body]
pub(crate) fn float_text(n: u64) -> (r: String)
    ensures
        r@ == float_spelling(n),
        n <= 0x20_0000_0000_0000 ==> r@ == text::decimal(n as nat) + ".0"@,
{
    serde_json::Number::from(n).as_f64().and_then(serde_json::Number::from_f64).map_or(
        String::new(),
        |x| x.to_string(),
    )
}

} // verus!
