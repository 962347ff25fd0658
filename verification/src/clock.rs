//! The calls that read the system's clock. What the clock shows is not a
//! function of anything the library holds, so nothing is claimed of it.

use vstd::prelude::*;

verus! {

/// A point in time, as the system's clock shows it.
#[verifier::external_type_specification]
#[verifier::external_body]
pub struct ExSystemTime(std::time::SystemTime);

/// The error of a clock that shows a time before the epoch.
#[verifier::external_type_specification]
#[verifier::external_body]
pub struct ExSystemTimeError(std::time::SystemTimeError);

/// `std::time::SystemTime::now`: the time that the clock shows.
#[verifier::external_body]
pub(crate) fn system_now() -> std::time::SystemTime {
    std::time::SystemTime::now()
}

/// `std::time::SystemTime::duration_since` the unix epoch: how long after the
/// epoch a time lies, or an error where it lies before it.
#[verifier::external_body]
pub(crate) fn since_epoch(time: &std::time::SystemTime) -> Result<
    std::time::Duration,
    std::time::SystemTimeError,
> {
    time.duration_since(std::time::UNIX_EPOCH)
}

/// `std::time::Duration::as_secs`: the whole seconds of a duration.
#[verifier::external_body]
pub(crate) fn whole_seconds(duration: &std::time::Duration) -> u64 {
    duration.as_secs()
}

/// The text of a `std::time::SystemTimeError`, as its `Display` writes it.
#[verifier::external_body]
pub(crate) fn clock_error_text(error: &std::time::SystemTimeError) -> String {
    error.to_string()
}

} // verus!
