//! Wrappers around outside calls whose results depend on the clock or on
//! randomness. Nothing is stated of the values beyond their shape: every
//! function of the library that works with one takes the value as an
//! argument and is verified for every value of it.

use vstd::prelude::*;

verus! {

/// Relies on chrono's `Utc::now` and `DateTime::to_rfc3339`: the current
/// instant, rendered as a timestamp string.
#[verifier::external_body]
pub fn now_rfc3339() -> (r: String) {
    chrono::Utc::now().to_rfc3339()
}

/// Relies on chrono's `Utc::now` and `DateTime::timestamp`: the current
/// instant, in whole seconds.
#[verifier::external_body]
pub fn now_epoch_secs() -> (r: u64) {
    u64::try_from(chrono::Utc::now().timestamp()).unwrap_or(0)
}

/// Relies on uuid's `Uuid::new_v4` and its hyphenated rendering: 36
/// characters, fresh randomness on every call.
#[verifier::external_body]
pub fn new_uuid_string() -> (r: String)
    ensures
        r@.len() == 36,
{
    uuid::Uuid::new_v4().to_string()
}

} // verus!
