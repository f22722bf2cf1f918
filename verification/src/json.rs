use vstd::prelude::*;

verus! {

/// A JSON document of `serde_json`. The library never looks inside one: tool
/// inputs and input schemas are carried from where they are made to where they
/// are used.
#[verifier::external_type_specification]
#[verifier::external_body]
pub struct ExValue(serde_json::Value);

/// Calls `serde_json::Value::clone`. The contract claims that the copy is the
/// same document as the one it was made of.
#[verifier::external_body]
pub(crate) fn clone_value(value: &serde_json::Value) -> (copy: serde_json::Value)
    ensures
        copy == *value,
{
    value.clone()
}

} // verus!
