//! JSON payloads of game events, carried through the library as they are.

use vstd::prelude::*;

verus! {

/// `serde_json::Value`, a JSON value the library stores and hands back without
/// looking inside it.
#[verifier::external_type_specification]
#[verifier::external_body]
pub struct ExJsonValue(serde_json::Value);

/// Calls `<serde_json::Value as Clone>::clone`.
///
/// The contract claims that the copy is the same value. `Value`'s `Clone` is derived
/// over its variants (null, booleans, numbers, strings, arrays and objects), so the
/// copy holds the same JSON document.
#[verifier::external_body]
pub(crate) fn clone_json(v: &serde_json::Value) -> (r: serde_json::Value)
    ensures
        r == *v,
{
    v.clone()
}

} // verus!
