//! JSON values, which record identifiers and field payloads are made of.

use serde_json::Value;
use vstd::prelude::*;

verus! {

/// `serde_json::Value`, carried through as an opaque value.
#[verifier::external_type_specification]
#[verifier::external_body]
pub struct ExValue(Value);

/// Calls `Value`'s `==`. `serde_json` makes this an equivalence (`Value` is
/// `Eq`): null equals null; booleans, strings, arrays and objects are equal
/// when their parts are; numbers are equal when they are the same integer
/// or the same finite float. Two values that are equal in this sense are
/// one value to this library, and two that are not are two.
#[verifier::external_body]
pub(crate) fn same_value(a: &Value, b: &Value) -> (same: bool)
    ensures
        same == (*a == *b),
{
    a == b
}

/// Calls `Value`'s `clone`, which builds a value equal to the one given.
#[verifier::external_body]
pub(crate) fn clone_value(value: &Value) -> (copy: Value)
    ensures
        copy == *value,
{
    value.clone()
}

} // verus!
