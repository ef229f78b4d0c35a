//! Points in time and lengths of time, as whole milliseconds.
use vstd::prelude::*;

verus! {

/// A point in time: milliseconds since 1970-01-01T00:00:00Z.
#[derive(Clone, Copy, Debug, PartialEq, Eq, Structural)]
pub struct Timestamp {
    pub millis: i64,
}

/// A non-negative length of time in milliseconds.
#[derive(Clone, Copy, Debug, PartialEq, Eq, Structural)]
pub struct Span {
    pub millis: u64,
}

/// Relies on chrono::Utc::now and DateTime::timestamp_millis: the clock's current time.
/// Nothing is promised of the value.
#[verifier::external_body]
pub(crate) fn clock_millis() -> (r: i64) {
    chrono::Utc::now().timestamp_millis()
}

impl Timestamp {
    /// The start of the epoch.
    pub fn epoch() -> (r: Timestamp)
        ensures
            r.millis == 0,
    {
        Timestamp { millis: 0 }
    }

    /// The time now, as the system clock tells it.
    pub fn now() -> (r: Timestamp) {
        Timestamp { millis: clock_millis() }
    }

    /// Whether `span` has fully elapsed between `self` and `at`.
    pub open spec fn spec_elapsed(self, span: Span, at: Timestamp) -> bool {
        at.millis - self.millis >= span.millis
    }

    #[verifier::when_used_as_spec(spec_elapsed)]
    pub fn elapsed(self, span: Span, at: Timestamp) -> (r: bool)
        ensures
            r == self.spec_elapsed(span, at),
    {
        (at.millis as i128) - (self.millis as i128) >= span.millis as i128
    }
}

impl Span {
    pub fn from_secs(secs: u32) -> (r: Span)
        ensures
            r.millis == secs * 1000,
    {
        Span { millis: secs as u64 * 1000 }
    }
}

} // verus!
