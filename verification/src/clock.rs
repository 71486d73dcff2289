//! The wall clock.

use std::time::{SystemTime, UNIX_EPOCH};

use vstd::prelude::*;

verus! {

/// The milliseconds since the Unix epoch by `std::time::SystemTime::now`, zero
/// before it. Nothing is claimed of the value.
#[verifier::external_body]
pub(crate) fn now_ms() -> (now: u64) {
    SystemTime::now().duration_since(UNIX_EPOCH).map(|d| d.as_millis() as u64).unwrap_or(0)
}

/// The seconds since the Unix epoch, zero before it.
pub(crate) fn now_secs() -> (now: u64)
    ensures
        now <= u64::MAX / 1000,
{
    now_ms() / 1000
}

} // verus!
