//! Access to the wall clock, used to stamp documents at creation time.

use vstd::prelude::*;

verus! {

/// Relies on chrono's `Utc::now` for the current instant, converted to a
/// Unix timestamp in seconds. Nothing is promised of the value: it depends
/// on when the call runs, and two calls may differ.
#[verifier::external_body]
pub(crate) fn now_timestamp() -> i64 {
    chrono::Utc::now().timestamp()
}

} // verus!
