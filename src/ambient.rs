use vstd::prelude::*;

verus! {

/// Relies on uuid::Uuid::new_v4 and its `Display`: a fresh random identifier,
/// of which nothing is promised here.
#[verifier::external_body]
pub(crate) fn fresh_id() -> (r: String) {
    uuid::Uuid::new_v4().to_string()
}

/// Relies on chrono::Utc::now and DateTime::timestamp_millis: the current
/// wall-clock time in milliseconds since the Unix epoch, of which nothing is
/// promised here (the clock may go backwards).
#[verifier::external_body]
pub(crate) fn now_millis() -> (r: i64) {
    chrono::Utc::now().timestamp_millis()
}

} // verus!
