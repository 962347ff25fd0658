//! A job queue layered on a shared key-value store.
//!
//! Producers enqueue serialized jobs, optionally delayed; consumers reserve,
//! execute and retire them. A reservation that is not retired within its
//! time-to-reserve is handed out again by the recovery sweep.

pub mod backend;
pub mod clock;
pub mod engine;
pub mod error;
pub mod job;
pub mod keys;
pub mod laws;
pub mod queue;
pub mod record;
pub mod store;
pub mod worker;

use vstd::prelude::*;

verus! {

/// The result type of every queue operation.
pub type QResult<T> = Result<T, crate::error::QError>;

/// The unix time in seconds. Fails with a clock failure where the system's
/// clock shows a time before the epoch.
pub fn timestamp() -> (now: QResult<u64>)
    ensures
        now matches Err(error) ==> error.kind_spec() == crate::error::CLOCK_FAILURE@,
{
    let time = crate::clock::system_now();
    let since = match crate::clock::since_epoch(&time) {
        Ok(duration) => Ok(crate::clock::whole_seconds(&duration)),
        Err(error) => Err(crate::clock::clock_error_text(&error)),
    };
    clock_reading(since)
}

/// The time that a reading of the clock stands for: the seconds since the
/// epoch where the clock gave them, and a clock failure with the clock's own
/// words where it showed a time before the epoch.
pub fn clock_reading(since_epoch: Result<u64, String>) -> (now: QResult<u64>)
    ensures
        match since_epoch {
            Ok(seconds) => now == Ok::<u64, crate::error::QError>(seconds),
            Err(words) => now matches Err(error) && error.kind_spec()
                == crate::error::CLOCK_FAILURE@ && error.message_spec() == words@,
        },
{
    match since_epoch {
        Ok(seconds) => Ok(seconds),
        Err(words) => Err(crate::error::QError::clock(words)),
    }
}

} // verus!
