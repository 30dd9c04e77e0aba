//! Identifiers and clock readings, which come from outside the library.

use vstd::prelude::*;

verus! {

/// Calls `uuid::Uuid::new_v4` and renders it with `to_string`; the value is random,
/// so nothing is promised of it.
#[verifier::external_body]
pub(crate) fn new_id() -> (id: String) {
    uuid::Uuid::new_v4().to_string()
}

/// Calls `chrono::Utc::now` and returns its `timestamp_micros`; the value depends on
/// the clock, so nothing is promised of it.
#[verifier::external_body]
pub(crate) fn now_micros() -> (t: i64) {
    chrono::Utc::now().timestamp_micros()
}

} // verus!

verus! {

/// Calls `chrono::Utc::now` and renders it with `to_rfc3339`; the value depends
/// on the clock, so nothing is promised of it.
#[verifier::external_body]
pub(crate) fn now_rfc3339() -> (t: String) {
    chrono::Utc::now().to_rfc3339()
}

} // verus!
