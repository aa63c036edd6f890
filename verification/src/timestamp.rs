//! Points in time, as plain numbers that can be compared and stored.

use vstd::prelude::*;

verus! {

/// A point in time in UTC: whole seconds since the start of 1970 and the
/// nanoseconds past them. During a leap second `nanos` runs past a billion,
/// so times are ordered by `secs` first and `nanos` second.
#[derive(Debug, Clone, Copy, PartialEq, Eq, Structural)]
pub struct Timestamp {
    pub secs: i64,
    pub nanos: u32,
}

impl Timestamp {
    /// `self` is not earlier than `other`.
    pub open spec fn at_or_after(self, other: Timestamp) -> bool {
        self.secs > other.secs || (self.secs == other.secs && self.nanos >= other.nanos)
    }

    /// The later of two times.
    pub open spec fn later_of(self, other: Timestamp) -> Timestamp {
        if other.at_or_after(self) {
            other
        } else {
            self
        }
    }

    pub fn new(secs: i64, nanos: u32) -> (r: Timestamp)
        ensures
            r == (Timestamp { secs, nanos }),
    {
        Timestamp { secs, nanos }
    }

    pub fn secs(&self) -> (r: i64)
        ensures
            r == self.secs,
    {
        self.secs
    }

    pub fn nanos(&self) -> (r: u32)
        ensures
            r == self.nanos,
    {
        self.nanos
    }

    /// Tells whether `self` is not earlier than `other`.
    pub fn is_at_or_after(&self, other: &Timestamp) -> (r: bool)
        ensures
            r == self.at_or_after(*other),
    {
        self.secs > other.secs || (self.secs == other.secs && self.nanos >= other.nanos)
    }

    /// The later of two times; `self` where they are equal.
    pub fn latest(self, other: Timestamp) -> (r: Timestamp)
        ensures
            r == self.later_of(other),
    {
        if other.is_at_or_after(&self) {
            other
        } else {
            self
        }
    }
}

/// Reads the system clock with `chrono::Utc::now` and hands the reading over
/// as the library's plain timestamp: the seconds that chrono's `timestamp`
/// gives and the nanoseconds that its `timestamp_subsec_nanos` gives. Nothing
/// is proved here, and nothing is claimed of the reading: two readings need
/// not be in order, since the clock can be set back. chrono panics where the
/// clock stands before 1970.
#[verifier::external_body]
pub(crate) fn now() -> (r: Timestamp) {
    let reading = chrono::Utc::now();
    Timestamp { secs: reading.timestamp(), nanos: reading.timestamp_subsec_nanos() }
}

/// The text that chrono writes for a time, in the form of RFC 3339 with the
/// offset `+00:00`; `None` for a time that chrono cannot hold.
pub uninterp spec fn rfc3339_text(secs: i64, nanos: u32) -> Option<Seq<char>>;

/// Writes a time as text: `chrono::DateTime::from_timestamp` makes chrono's
/// date and time of the seconds and nanoseconds, and `to_rfc3339` writes it.
/// Nothing is proved here. The contract claims that the text depends on the
/// time alone, and that there is none exactly where `from_timestamp` gives
/// none: for seconds out of chrono's range of years, and for nanoseconds that
/// are no part of a second.
#[verifier::external_body]
pub(crate) fn rfc3339(time: Timestamp) -> (r: Option<String>)
    ensures
        match r {
            Some(text) => rfc3339_text(time.secs, time.nanos) == Some(text@),
            None => rfc3339_text(time.secs, time.nanos) is None,
        },
{
    match chrono::DateTime::from_timestamp(time.secs, time.nanos) {
        Some(date_time) => Some(date_time.to_rfc3339()),
        None => None,
    }
}

/// The order of times is total: of two times one is not earlier than the other,
/// and two times that are each not earlier than the other are the same.
pub proof fn lemma_order_total(a: Timestamp, b: Timestamp)
    ensures
        a.at_or_after(b) || b.at_or_after(a),
        a.at_or_after(b) && b.at_or_after(a) ==> a == b,
        a.at_or_after(a),
{
}

/// The order of times is transitive.
pub proof fn lemma_order_transitive(a: Timestamp, b: Timestamp, c: Timestamp)
    requires
        a.at_or_after(b),
        b.at_or_after(c),
    ensures
        a.at_or_after(c),
{
}

/// The later of two times is one of them and not earlier than either.
pub proof fn lemma_later_of(a: Timestamp, b: Timestamp)
    ensures
        a.later_of(b) == a || a.later_of(b) == b,
        a.later_of(b).at_or_after(a),
        a.later_of(b).at_or_after(b),
{
    lemma_order_total(a, b);
}

} // verus!
