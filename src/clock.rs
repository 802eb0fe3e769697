use vstd::prelude::*;
use crate::conversation::Timestamp;

verus! {

/// Relies on chrono's `Utc::now` and `DateTime::timestamp_micros`: the current time in
/// microseconds since the Unix epoch. Nothing is promised of its value.
#[verifier::external_body]
pub(crate) fn now_micros() -> (r: Timestamp) {
    chrono::Utc::now().timestamp_micros()
}

} // verus!
