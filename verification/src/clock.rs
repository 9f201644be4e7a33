//! The aggregator's two clock reads. Both are trusted wrappers: what a
//! clock returns cannot be pinned down, so the callers state what holds
//! of every outcome.

use vstd::prelude::*;

verus! {

/// Relies on std::time::SystemTime::now and its duration since the Unix
/// epoch: the wall clock in whole seconds, or zero when the clock reads
/// earlier than the epoch.
#[verifier::external_body]
pub(crate) fn unix_time_secs() -> u64 {
    match std::time::SystemTime::now().duration_since(std::time::UNIX_EPOCH) {
        Ok(d) => d.as_secs(),
        Err(_) => 0,
    }
}

/// Relies on chrono::Local::now and chrono::Timelike::hour, which is
/// documented to return the hour number from 0 to 23.
#[verifier::external_body]
pub(crate) fn local_hour() -> (h: u8)
    ensures
        h < 24,
{
    chrono::Timelike::hour(&chrono::Local::now()) as u8
}

} // verus!
