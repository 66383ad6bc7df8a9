//! Instance, operation and library identifiers.

use uuid::Uuid;
use vstd::prelude::*;

verus! {

/// `uuid::Uuid`, carried through as an opaque value.
#[verifier::external_type_specification]
#[verifier::external_body]
pub struct ExUuid(Uuid);

/// Calls `Uuid`'s `==`. A `Uuid` is sixteen bytes and its `PartialEq` is
/// derived, so the comparison holds exactly when both are the same
/// identifier.
#[verifier::external_body]
pub(crate) fn same_id(a: &Uuid, b: &Uuid) -> (same: bool)
    ensures
        same == (*a == *b),
{
    a == b
}

} // verus!
