use std::time::{Duration, Instant};
use vstd::prelude::*;

verus! {

/// `std::time::Instant`, a reading of the monotonic clock, carried as an
/// opaque value.
#[verifier::external_type_specification]
#[verifier::external_body]
pub struct ExInstant(Instant);

/// `Instant::now` reads the monotonic clock. Nothing is promised of the
/// reading.
#[verifier::external_body]
fn instant_now() -> (instant: Instant) {
    Instant::now()
}

/// `Instant::elapsed` measures the time that has passed since the instant.
/// Nothing is promised of the span.
#[verifier::external_body]
fn elapsed_since(origin: &Instant) -> (span: Duration) {
    origin.elapsed()
}

/// `Duration::as_millis` gives the whole milliseconds in a span.
#[verifier::external_body]
fn whole_millis(span: &Duration) -> (millis: u128) {
    span.as_millis()
}

/// The reading that a clock gives after `last` when `raw` milliseconds have
/// passed since its start: `raw`, cut off at `u64::MAX`, but never less than
/// `last`.
pub open spec fn reading_of(raw: u128, last: u64) -> u64 {
    if raw <= last {
        last
    } else if raw > u64::MAX {
        u64::MAX
    } else {
        raw as u64
    }
}

/// Milliseconds since the clock was made. Its readings never go back,
/// whatever the system reports.
pub struct Clock {
    origin: Instant,
    last: u64,
}

impl Clock {
    /// The latest reading, zero before the first.
    pub closed spec fn latest(&self) -> u64 {
        self.last
    }

    /// A clock that starts now.
    pub fn new() -> (clock: Clock)
        ensures
            clock.latest() == 0,
    {
        Clock { origin: instant_now(), last: 0 }
    }

    /// Turns the milliseconds that the system reports into the next reading.
    pub fn reading(raw: u128, last: u64) -> (millis: u64)
        ensures
            millis == reading_of(raw, last),
    {
        if raw <= last as u128 {
            last
        } else if raw > u64::MAX as u128 {
            u64::MAX
        } else {
            raw as u64
        }
    }

    /// Reads the clock. The reading is at least the one before.
    pub fn now(&mut self) -> (millis: u64)
        ensures
            millis >= old(self).latest(),
            final(self).latest() == millis,
    {
        let span = elapsed_since(&self.origin);
        let millis: u64 = Clock::reading(whole_millis(&span), self.last);
        self.last = millis;
        millis
    }
}

impl Default for Clock {
    fn default() -> (clock: Self)
        ensures
            clock.latest() == 0,
    {
        Clock::new()
    }
}

} // verus!
