use vstd::prelude::*;

verus! {

/// Relies on uuid's `Uuid::new_v4` for a random version-4 identifier, handed
/// on as its 128-bit value through `Uuid::as_u128`. Nothing is promised of the
/// value.
#[verifier::external_body]
pub(crate) fn fresh_identity() -> u128 {
    uuid::Uuid::new_v4().as_u128()
}

} // verus!
