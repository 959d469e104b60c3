//! Reading the clocks: the wall clock in Unix seconds and the monotonic
//! clock behind uptime figures. No value read here is predictable, so the
//! functions below promise nothing of it; the callers take it as input.

use vstd::prelude::*;

verus! {

/// Declares `std::time::Instant`, a reading of the monotonic clock; opaque.
#[verifier::external_type_specification]
#[verifier::external_body]
pub struct ExInstant(std::time::Instant);

/// Declares `std::time::SystemTime`, a reading of the wall clock; opaque.
#[verifier::external_type_specification]
#[verifier::external_body]
pub struct ExSystemTime(std::time::SystemTime);

/// Declares `std::time::SystemTimeError`, the failure of a clock reading
/// earlier than the epoch; opaque.
#[verifier::external_type_specification]
#[verifier::external_body]
pub struct ExSystemTimeError(std::time::SystemTimeError);

/// `std::time::Instant::now`: a reading of the monotonic clock; nothing is
/// claimed of its value.
pub assume_specification[ std::time::Instant::now ]() -> (r: std::time::Instant);

/// `std::time::Instant::elapsed`: the time since `t` (zero when the clock
/// reads earlier); nothing is claimed of its value.
pub assume_specification[ std::time::Instant::elapsed ](t: &std::time::Instant) -> (r:
    core::time::Duration);

/// The whole seconds of a duration, as `core::time::Duration::as_secs`
/// gives them.
pub uninterp spec fn duration_whole_secs(d: core::time::Duration) -> u64;

/// `core::time::Duration::as_secs`: claims that the number is the named
/// whole seconds of `d` (the method returns the duration's seconds field, so
/// equal durations give equal numbers).
pub assume_specification[ core::time::Duration::as_secs ](d: &core::time::Duration) -> (r: u64)
    ensures
        r == duration_whole_secs(*d),
;

/// `std::time::SystemTime::now`: a reading of the wall clock; nothing is
/// claimed of its value.
pub assume_specification[ std::time::SystemTime::now ]() -> (r: std::time::SystemTime);

/// Calls `std::time::SystemTime::duration_since` with the Unix epoch; it
/// fails when the clock reads earlier than the epoch. Nothing is claimed of
/// the result.
#[verifier::external_body]
fn since_unix_epoch(t: &std::time::SystemTime) -> (r: Result<
    core::time::Duration,
    std::time::SystemTimeError,
>) {
    t.duration_since(std::time::UNIX_EPOCH)
}

/// The whole seconds of a clock reading since the epoch, 0 for a reading
/// earlier than the epoch.
pub open spec fn reading_secs(t: Result<core::time::Duration, std::time::SystemTimeError>) -> u64 {
    match t {
        Ok(d) => duration_whole_secs(d),
        Err(_) => 0,
    }
}

/// The whole seconds of a reading since the epoch; a reading earlier than
/// the epoch counts as 0.
pub fn secs_or_zero(t: Result<core::time::Duration, std::time::SystemTimeError>) -> (s: u64)
    ensures
        s == reading_secs(t),
{
    match t {
        Ok(d) => d.as_secs(),
        Err(_) => 0,
    }
}

/// Whole seconds since the Unix epoch on the wall clock, 0 when the clock
/// reads earlier than the epoch. The clock's reading is unpredictable, so no
/// value is promised; [`secs_or_zero`] states what is made of it.
pub fn unix_seconds() -> u64 {
    let now = std::time::SystemTime::now();
    secs_or_zero(since_unix_epoch(&now))
}

/// [`unix_seconds`] as a signed number, the form stored with messages.
pub fn current_unix() -> i64 {
    let s = unix_seconds();
    s as i64
}

/// Whole seconds elapsed on the monotonic clock since `t`.
pub fn elapsed_seconds(t: &std::time::Instant) -> u64 {
    let d = t.elapsed();
    d.as_secs()
}

} // verus!
