//! Points in time, as the transfer engine and the credential cache see them.

use vstd::prelude::*;

verus! {

/// An instant: whole seconds since the Unix epoch and the nanoseconds within
/// that second. Instants are ordered by `secs`, then by `nanos`.
#[derive(Clone, Copy, Debug, PartialEq, Eq, Structural)]
pub struct Timestamp {
    pub secs: i64,
    pub nanos: u32,
}

impl Timestamp {
    /// `self` is strictly later than `other`.
    pub open spec fn is_after(self, other: Timestamp) -> bool {
        self.secs > other.secs || (self.secs == other.secs && self.nanos > other.nanos)
    }

    /// `self` is strictly later than the instant `seconds` before `other`.
    pub open spec fn is_after_seconds_before(self, other: Timestamp, seconds: int) -> bool {
        self.secs > other.secs - seconds || (self.secs == other.secs - seconds && self.nanos
            > other.nanos)
    }

    /// `self` is strictly earlier than the instant `seconds` before `other`.
    pub open spec fn is_before_seconds_before(self, other: Timestamp, seconds: int) -> bool {
        self.secs < other.secs - seconds || (self.secs == other.secs - seconds && self.nanos
            < other.nanos)
    }

    /// The instant `seconds` after `self`, held at the largest representable
    /// second where the sum would leave the range of `i64`.
    pub open spec fn plus_seconds(self, seconds: int) -> Timestamp {
        Timestamp {
            secs: if self.secs + seconds > i64::MAX {
                i64::MAX
            } else if self.secs + seconds < i64::MIN {
                i64::MIN
            } else {
                (self.secs + seconds) as i64
            },
            nanos: self.nanos,
        }
    }

    /// The Unix epoch, 1970-01-01T00:00:00Z.
    pub fn epoch() -> (t: Timestamp)
        ensures
            t == (Timestamp { secs: 0, nanos: 0 }),
    {
        Timestamp { secs: 0, nanos: 0 }
    }

    /// Whether `self` is strictly later than `other`.
    pub fn later_than(&self, other: &Timestamp) -> (b: bool)
        ensures
            b == self.is_after(*other),
    {
        self.secs > other.secs || (self.secs == other.secs && self.nanos > other.nanos)
    }

    /// Whether `self` is strictly later than the instant `seconds` before
    /// `other`. The difference is taken exactly, whatever the size of
    /// `seconds`.
    pub fn later_than_seconds_before(&self, other: &Timestamp, seconds: i64) -> (b: bool)
        ensures
            b == self.is_after_seconds_before(*other, seconds as int),
    {
        let edge: i128 = other.secs as i128 - seconds as i128;
        let mine: i128 = self.secs as i128;
        mine > edge || (mine == edge && self.nanos > other.nanos)
    }

    /// Whether `self` is strictly earlier than the instant `seconds` before
    /// `other`. The difference is taken exactly, whatever the size of
    /// `seconds`.
    pub fn earlier_than_seconds_before(&self, other: &Timestamp, seconds: i64) -> (b: bool)
        ensures
            b == self.is_before_seconds_before(*other, seconds as int),
    {
        let edge: i128 = other.secs as i128 - seconds as i128;
        let mine: i128 = self.secs as i128;
        mine < edge || (mine == edge && self.nanos < other.nanos)
    }

    /// The instant `seconds` after `self`, saturating at the ends of `i64`.
    pub fn saturating_add_seconds(&self, seconds: i64) -> (t: Timestamp)
        ensures
            t == self.plus_seconds(seconds as int),
    {
        let sum: i128 = self.secs as i128 + seconds as i128;
        let secs: i64 = if sum > i64::MAX as i128 {
            i64::MAX
        } else if sum < i64::MIN as i128 {
            i64::MIN
        } else {
            sum as i64
        };
        Timestamp { secs, nanos: self.nanos }
    }
}

/// The instant that a text in RFC 3339 form denotes, as seconds since the
/// Unix epoch and nanoseconds within the second; `None` where the text is not
/// in that form.
pub uninterp spec fn rfc3339_instant(text: Seq<char>) -> Option<(i64, u32)>;

/// Calls `chrono::DateTime::parse_from_rfc3339` and reads the instant off
/// the result with `timestamp` and `timestamp_subsec_nanos`. Whether the text
/// parses, and to which instant, depends on the text alone (the UTC offset is
/// part of it), so the result is named `rfc3339_instant(text)`; nothing else is
/// claimed of it.
#[verifier::external_body]
pub(crate) fn parse_rfc3339(text: &str) -> (instant: Option<Timestamp>)
    ensures
        match instant {
            Some(t) => rfc3339_instant(text@) == Some((t.secs, t.nanos)),
            None => rfc3339_instant(text@) is None,
        },
{
    match chrono::DateTime::parse_from_rfc3339(text) {
        Ok(dt) => Some(Timestamp { secs: dt.timestamp(), nanos: dt.timestamp_subsec_nanos() }),
        Err(_) => None,
    }
}

/// The instant that an expiration text denotes, if it is in RFC 3339 form.
pub open spec fn instant_of(text: Seq<char>) -> Option<Timestamp> {
    match rfc3339_instant(text) {
        Some(p) => Some(Timestamp { secs: p.0, nanos: p.1 }),
        None => None,
    }
}

/// Reads an instant from a text in RFC 3339 form.
pub fn parse_instant(text: &str) -> (instant: Option<Timestamp>)
    ensures
        instant == instant_of(text@),
{
    parse_rfc3339(text)
}

} // verus!
