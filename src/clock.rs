//! Wall-clock timestamps.
use vstd::prelude::*;

verus! {

/// Relies on `chrono::Utc::now` and `DateTime::to_rfc3339`: the current
/// time (UTC) as an RFC 3339 timestamp. The time is read anew at each call, so
/// nothing is promised of the text.
#[verifier::external_body]
pub fn now_rfc3339() -> (r: String) {
    chrono::Utc::now().to_rfc3339()
}

} // verus!
