//! A monotonic clock that counts from when it was started.

use vstd::prelude::*;

verus! {

/// A point on the system's monotonic clock.
#[verifier::external_type_specification]
#[verifier::external_body]
pub struct ExInstant(std::time::Instant);

/// `std::time::Instant::now` reads the monotonic clock. Nothing can be said of when
/// that is.
#[verifier::external_body]
fn instant_now() -> (t: std::time::Instant) {
    std::time::Instant::now()
}

/// `std::time::Instant::elapsed` gives the time since `base`, here in nanoseconds.
/// Nothing can be said of how long that is.
#[verifier::external_body]
fn nanos_since(base: &std::time::Instant) -> (n: u64) {
    base.elapsed().as_nanos() as u64
}

/// A clock that was started at some point.
#[derive(Clone, Copy, Debug)]
pub struct Clock {
    base: std::time::Instant,
}

impl Clock {
    /// Starts a clock.
    pub fn start() -> (c: Self) {
        Clock { base: instant_now() }
    }

    /// Nanoseconds since the clock was started.
    pub fn now_ns(&self) -> (n: u64) {
        nanos_since(&self.base)
    }
}

} // verus!
