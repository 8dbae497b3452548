//! The wall clock, reduced to plain Unix seconds at the boundary.

use vstd::prelude::*;

verus! {

/// Relies on chrono::Utc::now, reduced to Unix seconds: the value
/// depends on the moment of the call, so nothing is promised of it.
#[verifier::external_body]
pub(crate) fn now_seconds() -> i64 {
    chrono::Utc::now().timestamp()
}

} // verus!
