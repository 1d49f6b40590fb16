//! The wall clock, read as plain milliseconds.
//!
//! Element staleness is measured against timestamps from this clock.  The
//! value depends on the machine's clock, so nothing is promised of it;
//! every function whose result depends on a timestamp also exists in a
//! form that takes the time as an argument and is verified for every
//! value of it.

use vstd::prelude::*;

verus! {

/// Relies on std::time::SystemTime::now: the current time, converted to
/// whole milliseconds since the Unix epoch, zero if the clock reads
/// earlier than the epoch.
#[verifier::external_body]
pub fn now_millis() -> u64 {
    match std::time::SystemTime::now().duration_since(std::time::UNIX_EPOCH) {
        Ok(d) => d.as_millis() as u64,
        Err(_) => 0,
    }
}

} // verus!
