//! Instants and the ledger's non-decreasing clock.

use vstd::prelude::*;

verus! {

/// An instant: microseconds since 1970-01-01T00:00:00 UTC, leap seconds not counted.
#[derive(Clone, Copy, Debug, PartialEq, Eq, Structural)]
pub struct Timestamp {
    pub micros: i64,
}

impl Timestamp {
    /// The later of two instants.
    pub open spec fn later_of(self, other: Timestamp) -> Timestamp {
        if self.micros >= other.micros {
            self
        } else {
            other
        }
    }

    /// `self` is not after `other`.
    pub open spec fn not_after(self, other: Timestamp) -> bool {
        self.micros <= other.micros
    }

    /// The instant before every other.
    pub open spec fn earliest() -> Timestamp {
        Timestamp { micros: i64::MIN }
    }

    /// The instant `micros` microseconds after the beginning of 1970, or
    /// before it for a negative number.
    pub fn from_micros(micros: i64) -> (t: Timestamp)
        ensures
            t.micros == micros,
    {
        Timestamp { micros }
    }

    /// The microseconds from the beginning of 1970 to the instant.
    pub fn micros(&self) -> (m: i64)
        ensures
            m == self.micros,
    {
        self.micros
    }

    /// Reads the system clock.
    ///
    /// The reading does not lie before 1970. Nothing else is known of it:
    /// the system clock may be set to any later instant and may step
    /// backwards between two calls.
    pub fn now() -> (t: Timestamp)
        ensures
            t.micros >= 0,
    {
        Timestamp { micros: system_micros() }
    }
}

/// Calls `chrono::Utc::now` and converts the reading with
/// `DateTime::timestamp_micros`.
///
/// Taken on trust: the microseconds are not negative. `Utc::now` takes the
/// time that has passed since the beginning of 1970 from the system clock,
/// and panics where the clock is set before that. Nothing else is claimed
/// of the reading.
#[verifier::external_body]
fn system_micros() -> (micros: i64)
    ensures
        micros >= 0,
{
    chrono::Utc::now().timestamp_micros()
}

/// A clock that never runs backwards: it remembers the latest instant it has
/// handed out and hands out nothing earlier.
#[derive(Clone, Copy, Debug)]
pub struct Clock {
    latest: Timestamp,
}

impl Clock {
    /// The latest instant handed out so far.
    pub closed spec fn latest(&self) -> Timestamp {
        self.latest
    }

    /// A clock that has handed out nothing yet.
    pub fn new() -> (c: Clock)
        ensures
            c.latest() == Timestamp::earliest(),
    {
        Clock { latest: Timestamp { micros: i64::MIN } }
    }

    /// A clock whose latest instant is `start`.
    pub fn starting_at(start: Timestamp) -> (c: Clock)
        ensures
            c.latest() == start,
    {
        Clock { latest: start }
    }

    /// The latest instant handed out so far.
    pub fn current(&self) -> (t: Timestamp)
        ensures
            t == self.latest(),
    {
        self.latest
    }

    /// The instant that `observe` would hand out for `reading`, without
    /// advancing the clock.
    pub fn preview(&self, reading: Timestamp) -> (t: Timestamp)
        ensures
            t == self.latest().later_of(reading),
    {
        if self.latest.micros >= reading.micros {
            self.latest
        } else {
            reading
        }
    }

    /// Takes a reading of some outside clock and hands out the current
    /// instant: the reading, or the latest instant handed out before where
    /// the reading lies behind it.
    pub fn observe(&mut self, reading: Timestamp) -> (t: Timestamp)
        ensures
            t == old(self).latest().later_of(reading),
            final(self).latest() == t,
            old(self).latest().not_after(t),
            reading.not_after(t),
    {
        let t = self.preview(reading);
        self.latest = t;
        t
    }
}

} // verus!
