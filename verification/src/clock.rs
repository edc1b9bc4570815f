use std::time::{Instant, SystemTime, UNIX_EPOCH};
use vstd::prelude::*;

verus! {

/// `std::time::Instant`: a moment of the monotonic clock, carried
/// through as a value of which nothing is known.
#[verifier::external_type_specification]
#[verifier::external_body]
pub struct ExInstant(Instant);

/// `std::time::SystemTime`: a moment of the wall clock, carried through
/// as a value of which nothing is known.
#[verifier::external_type_specification]
#[verifier::external_body]
pub struct ExSystemTime(SystemTime);

/// `Instant::clone` of the standard library. `Instant` is a `Copy` type:
/// the contract claims that the clone is the moment itself.
pub assume_specification[ <Instant as Clone>::clone ](t: &Instant) -> (r: Instant)
    ensures
        r == *t,
;

/// Reads the monotonic clock with `Instant::now` of the standard library.
/// Nothing is claimed of the moment that comes back.
#[verifier::external_body]
pub(crate) fn now() -> (t: Instant) {
    Instant::now()
}

/// The whole milliseconds that have passed since `start`, by
/// `Instant::elapsed` of the standard library, cut to 64 bits as a cast
/// does. Nothing is claimed of the number that comes back.
#[verifier::external_body]
pub(crate) fn elapsed_ms(start: &Instant) -> (ms: u64) {
    start.elapsed().as_millis() as u64
}

/// Reads the wall clock with `SystemTime::now` of the standard library.
/// Nothing is claimed of the moment that comes back.
#[verifier::external_body]
pub(crate) fn wall_clock() -> (t: SystemTime) {
    SystemTime::now()
}

/// The time from the Unix epoch to a moment of the wall clock, by
/// `SystemTime::duration_since` of the standard library, as whole
/// seconds and the nanoseconds beyond them; nothing where the moment is
/// before the epoch. Nothing is claimed of the numbers that come back.
#[verifier::external_body]
pub(crate) fn since_epoch(t: &SystemTime) -> (d: Option<(u64, u32)>) {
    match t.duration_since(UNIX_EPOCH) {
        Ok(d) => Some((d.as_secs(), d.subsec_nanos())),
        Err(_) => None,
    }
}

} // verus!
