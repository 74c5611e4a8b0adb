//! A JSON document model, read and written through `serde_json`.

use vstd::prelude::*;

verus! {

#[verifier::external_type_specification]
#[verifier::external_body]
pub struct ExJsonValue(serde_json::Value);

/// A JSON document as the library reads it.
#[derive(Debug)]
pub enum Json {
    Null,
    Bool(bool),
    /// A number that is a whole number in `0..=u64::MAX`.
    UInt(u64),
    /// Any other number (negative, fractional or too large); only its presence is kept.
    OtherNumber,
    Str(String),
    Array(Vec<Json>),
    /// Members in document order.
    Object(Vec<(String, Json)>),
}

/// What the JSON reader yields for the bytes `b`: `None` where they are not one JSON document.
pub uninterp spec fn json_parsed(b: Seq<u8>) -> Option<Json>;

/// The compact JSON text that the writer produces for `j`.
pub uninterp spec fn json_text(j: Json) -> Seq<u8>;

/// The deepest nesting of arrays and objects that the reader accepts.
pub const JSON_MAX_DEPTH: u32 = 127;

/// Whether `j` holds no number outside `u64`, no object in it repeats a key, and it nests at
/// most `depth` arrays and objects.
pub open spec fn json_fits(j: Json, depth: nat) -> bool
    decreases j,
{
    match j {
        Json::OtherNumber => false,
        Json::Array(items) => depth > 0 && forall|i: int|
            0 <= i < items.len() ==> #[trigger] json_fits(items@[i], (depth - 1) as nat),
        Json::Object(members) => {
            &&& depth > 0
            &&& forall|i: int, k: int|
                0 <= i < k < members.len() ==> #[trigger] members@[i].0@ != #[trigger] members@[k].0@
            &&& forall|i: int|
                0 <= i < members.len() ==> #[trigger] json_fits(members@[i].1, (depth - 1) as nat)
        },
        _ => true,
    }
}

/// Whether `j` survives being written and read back unchanged.
pub open spec fn json_keeps(j: Json) -> bool {
    json_fits(j, JSON_MAX_DEPTH as nat)
}

/// Relies on `serde_json::from_slice` into `serde_json::Value` (members kept in document
/// order, at most 127 nested arrays and objects): the result depends on the bytes alone, and
/// the text that `serde_json::to_vec` writes for a document reads back as that document when
/// no number is lost, no object repeats a key and the nesting is within that limit.
#[verifier::external_body]
pub(crate) fn parse_json(b: &[u8]) -> (r: Option<Json>)
    ensures
        r == json_parsed(b@),
        forall|j: Json| json_keeps(j) && #[trigger] json_text(j) == b@ ==> r == Some(j),
{
    serde_json::from_slice::<serde_json::Value>(b).ok().map(json_from_value)
}

/// Relies on `serde_json::to_vec` on a `serde_json::Value`, which cannot fail on a value whose
/// keys are strings: compact JSON text with members in order.
#[verifier::external_body]
pub(crate) fn render_json(j: &Json) -> (r: Vec<u8>)
    ensures
        r@ == json_text(*j),
{
    serde_json::to_vec(&json_to_value(j)).unwrap_or_default()
}

/// Turns a `serde_json::Value` into a `Json`, variant for variant.
#[verifier::external_body]
fn json_from_value(v: serde_json::Value) -> Json {
    match v {
        serde_json::Value::Null => Json::Null,
        serde_json::Value::Bool(b) => Json::Bool(b),
        serde_json::Value::Number(n) => n.as_u64().map_or(Json::OtherNumber, Json::UInt),
        serde_json::Value::String(s) => Json::Str(s),
        serde_json::Value::Array(a) => Json::Array(a.into_iter().map(json_from_value).collect()),
        serde_json::Value::Object(m) => Json::Object(
            m.into_iter().map(|(k, x)| (k, json_from_value(x))).collect(),
        ),
    }
}

/// Turns a `Json` into a `serde_json::Value`, variant for variant.
#[verifier::external_body]
fn json_to_value(j: &Json) -> serde_json::Value {
    match j {
        Json::Null | Json::OtherNumber => serde_json::Value::Null,
        Json::Bool(b) => serde_json::Value::Bool(*b),
        Json::UInt(n) => serde_json::Value::from(*n),
        Json::Str(s) => serde_json::Value::String(s.clone()),
        Json::Array(a) => serde_json::Value::Array(a.iter().map(json_to_value).collect()),
        Json::Object(m) => serde_json::Value::Object(
            m.iter().map(|(k, x)| (k.clone(), json_to_value(x))).collect(),
        ),
    }
}

} // verus!
