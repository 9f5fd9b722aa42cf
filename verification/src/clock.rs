//! Wall-clock timestamps for task and document records.

use vstd::prelude::*;

verus! {

/// Relies on `chrono::Utc::now` and `DateTime::to_rfc3339`: the current
/// time rendered as a non-empty RFC 3339 string. The value depends on the
/// clock, so nothing else is assumed of it.
#[verifier::external_body]
pub fn now_rfc3339() -> (r: String)
    ensures
        r@.len() > 0,
{
    chrono::Utc::now().to_rfc3339()
}

} // verus!
