//! Fresh identifiers and the current time, from outside the library.
use vstd::prelude::*;

verus! {

/// Relies on `uuid::Uuid::new_v4`: a random version-4 identifier, returned as its
/// 128-bit value. Nothing is assumed of the value.
#[verifier::external_body]
pub(crate) fn fresh_id() -> (r: u128) {
    uuid::Uuid::new_v4().as_u128()
}

/// Relies on `chrono::Utc::now` and `DateTime::timestamp`: the current time in seconds
/// since the Unix epoch. Nothing is assumed of the value.
#[verifier::external_body]
pub(crate) fn clock_now() -> (r: i64) {
    chrono::Utc::now().timestamp()
}

} // verus!
