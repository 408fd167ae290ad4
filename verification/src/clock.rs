//! The wall clock and fresh update identifiers, from outside crates.
//!
//! Every function of the library that depends on the current time takes
//! it as an argument; these wrappers are how callers sample it.

use vstd::prelude::*;

verus! {

/// Relies on `chrono::Utc::now` and `DateTime::timestamp_millis`: the
/// milliseconds since the Unix epoch at the moment of the call.  Nothing
/// is assumed of the reading: callers state what holds of every value.
#[verifier::external_body]
pub fn now_millis() -> i64 {
    chrono::Utc::now().timestamp_millis()
}

/// Relies on `uuid::Uuid::new_v4` and `Uuid::as_u128`: a freshly drawn
/// random identifier.  Nothing is assumed of the value: two calls may
/// return anything.
#[verifier::external_body]
pub fn new_update_id() -> u128 {
    uuid::Uuid::new_v4().as_u128()
}

} // verus!
