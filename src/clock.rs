use vstd::prelude::*;

use std::time::{Duration, Instant};

verus! {

/// std's monotonic clock reading, carried through as an opaque value.
#[verifier::external_type_specification]
#[verifier::external_body]
pub struct ExInstant(Instant);

/// Relies on `Instant::now`: the current time of a monotonic clock.
#[verifier::external_body]
pub(crate) fn now() -> Instant {
    Instant::now()
}

/// Relies on `Instant`'s `>=`: whether `time` is at or after `deadline`.
#[verifier::external_body]
pub(crate) fn reached(time: &Instant, deadline: &Instant) -> bool {
    *time >= *deadline
}

/// Relies on `Instant::checked_add`: the instant `millis` milliseconds after
/// `start`, or None where the clock cannot represent it.
#[verifier::external_body]
pub(crate) fn after_millis(start: &Instant, millis: u64) -> Option<Instant> {
    start.checked_add(Duration::from_millis(millis))
}

/// Returns true once the clock has reached `deadline`.
pub fn deadline_passed(deadline: &Instant) -> bool {
    let t = now();
    reached(&t, deadline)
}

} // verus!
