use vstd::prelude::*;

verus! {

/// Relies on uuid::Uuid::now_v7, which builds a version 7 UUID from the
/// current time and random bytes. The value depends on the clock and on
/// chance, so nothing is promised of it; callers state what holds of the
/// list whatever identifier came back.
#[verifier::external_body]
pub(crate) fn fresh_id() -> u128 {
    uuid::Uuid::now_v7().as_u128()
}

} // verus!
