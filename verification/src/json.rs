//! JSON data carried through the library unchanged (item data, view data).

use vstd::prelude::*;

verus! {

/// The JSON value type of `serde_json`, carried opaquely.
#[verifier::external_type_specification]
#[verifier::external_body]
pub struct ExJsonValue(serde_json::Value);

/// Copies a JSON value.
///
/// Calls `<serde_json::Value as Clone>::clone`; the contract claims that the
/// copy is the same value, as the derived `Clone` of that enum gives.
#[verifier::external_body]
pub fn clone_json(v: &serde_json::Value) -> (r: serde_json::Value)
    ensures
        r == *v,
{
    v.clone()
}

/// Whether a JSON value is `null` (the `Null` variant of `serde_json::Value`).
pub uninterp spec fn json_is_null(v: serde_json::Value) -> bool;

/// The JSON `null` value.
///
/// Builds `serde_json::Value::Null`; the contract claims just that: the
/// value is `null`.
#[verifier::external_body]
pub fn json_null() -> (r: serde_json::Value)
    ensures
        json_is_null(r),
{
    serde_json::Value::Null
}

/// Copies an optional JSON value.
pub fn clone_json_opt(v: &Option<serde_json::Value>) -> (r: Option<serde_json::Value>)
    ensures
        r == *v,
{
    match v {
        Some(x) => Some(clone_json(x)),
        None => None,
    }
}

} // verus!
