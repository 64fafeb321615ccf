use vstd::prelude::*;

verus! {

/// An opaque JSON payload carried through the model (node configuration, task data).
#[verifier::external_type_specification]
#[verifier::external_body]
pub struct ExValue(serde_json::Value);

/// Relies on serde_json's derived `Clone` for `Value`: a deep copy of the same JSON value.
pub assume_specification[ <serde_json::Value as Clone>::clone ](v: &serde_json::Value) -> (r: serde_json::Value)
    ensures
        r == *v,
;

/// Relies on serde_json's `Default` for `Value`, which yields `Value::Null`.
pub assume_specification[ <serde_json::Value as Default>::default ]() -> serde_json::Value;

} // verus!
