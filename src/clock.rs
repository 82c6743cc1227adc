use vstd::prelude::*;

verus! {

/// Relies on chrono::Utc::now and `DateTime::timestamp`: the current time in
/// seconds since the Unix epoch. Nothing is known of the value.
#[verifier::external_body]
pub(crate) fn now_timestamp() -> (r: i64) {
    chrono::Utc::now().timestamp()
}

} // verus!
