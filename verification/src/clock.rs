//! Instants in UTC and the system clock.
use vstd::prelude::*;

verus! {

/// The first second that the calendar covers: -262143-01-01T00:00:00Z.
pub const MIN_SECS: i64 = -8_334_601_228_800;

/// The last second that the calendar covers: +262142-12-31T23:59:59Z.
pub const MAX_SECS: i64 = 8_210_266_876_799;

pub const NANOS_PER_SEC: u32 = 1_000_000_000;

/// An instant in UTC: whole seconds since the Unix epoch, and nanoseconds
/// since that second. In a leap second, which counts as part of the second
/// before it, the nanoseconds go on past 999,999,999.
#[derive(Debug, Clone, Copy, PartialEq, Eq, PartialOrd, Ord, Structural)]
pub struct Timestamp {
    pub secs: i64,
    pub nanos: u32,
}

/// Whether the instant lies in the calendar's range.
pub open spec fn representable(t: Timestamp) -> bool {
    &&& MIN_SECS <= t.secs <= MAX_SECS
    &&& t.nanos < NANOS_PER_SEC || (t.nanos < 2 * NANOS_PER_SEC && t.secs as int % 60 == 59)
}

/// What the system clock may read: no earlier than the Unix epoch, within the
/// calendar's range, and never in a leap second.
pub open spec fn is_clock_reading(t: Timestamp) -> bool {
    0 <= t.secs <= MAX_SECS && t.nanos < NANOS_PER_SEC
}

/// Whether `a` comes after `b`.
pub open spec fn later(a: Timestamp, b: Timestamp) -> bool {
    a.secs > b.secs || (a.secs == b.secs && a.nanos > b.nanos)
}

/// The instant `n` seconds after `t`. A leap second is one second more on the
/// way: what leaves it for a later second does not count it, and what leaves it
/// for an earlier one does.
pub open spec fn plus_secs(t: Timestamp, n: int) -> Timestamp {
    if t.nanos < NANOS_PER_SEC || n == 0 {
        Timestamp { secs: (t.secs + n) as i64, nanos: t.nanos }
    } else if n > 0 {
        Timestamp { secs: (t.secs + n) as i64, nanos: (t.nanos - NANOS_PER_SEC) as u32 }
    } else {
        Timestamp { secs: (t.secs + n + 1) as i64, nanos: (t.nanos - NANOS_PER_SEC) as u32 }
    }
}

/// Whether a duration in seconds can lead from some clock reading to an
/// instant in the calendar's range.
pub open spec fn duration_in_range(n: int) -> bool {
    MIN_SECS - MAX_SECS <= n <= MAX_SECS
}

/// The second of the day.
pub open spec fn second_of_day(t: Timestamp) -> int {
    t.secs as int % 86_400
}

/// The leap second that the difference of two instants counts on top of their
/// seconds: that of the instant with the smaller second of the day.
pub open spec fn leap_adjustment(a: Timestamp, b: Timestamp) -> int {
    if second_of_day(a) > second_of_day(b) && b.nanos >= NANOS_PER_SEC {
        1
    } else if second_of_day(a) < second_of_day(b) && a.nanos >= NANOS_PER_SEC {
        -1
    } else {
        0
    }
}

/// The time from `b` to `a` in nanoseconds.
pub open spec fn elapsed_nanos(a: Timestamp, b: Timestamp) -> int {
    (a.secs - b.secs + leap_adjustment(a, b)) * 1_000_000_000 + (a.nanos - b.nanos)
}

/// The text of an instant in RFC 3339, as `chrono::DateTime::to_rfc3339` writes it.
pub uninterp spec fn rfc3339_text(secs: i64, nanos: u32) -> Seq<char>;

/// The text of an instant for people, as `chrono::DateTime` displays it.
pub uninterp spec fn display_text(secs: i64, nanos: u32) -> Seq<char>;

/// `chrono::Utc::now`: the reading of the system clock. It lies between the
/// Unix epoch and the end of the calendar and is never in a leap second.
/// Which instant it is depends on when the call is made.
#[verifier::external_body]
pub(crate) fn utc_now() -> (now: Timestamp)
    ensures
        is_clock_reading(now),
{
    let now = chrono::Utc::now();
    Timestamp { secs: now.timestamp(), nanos: now.timestamp_subsec_nanos() }
}

/// `chrono::DateTime::to_rfc3339` on the instant that
/// `chrono::DateTime::from_timestamp` makes of seconds and nanoseconds. There
/// is such an instant exactly for those in the calendar's range, and the text
/// is a function of it.
#[verifier::external_body]
fn to_rfc3339(at: Timestamp) -> (text: Option<String>)
    ensures
        text is Some <==> representable(at),
        text matches Some(t) ==> t@ == rfc3339_text(at.secs, at.nanos),
{
    match chrono::DateTime::from_timestamp(at.secs, at.nanos) {
        Some(utc) => Some(utc.to_rfc3339()),
        None => None,
    }
}

/// What `chrono::DateTime` displays for the instant that
/// `chrono::DateTime::from_timestamp` makes of seconds and nanoseconds. There
/// is such an instant exactly for those in the calendar's range, and the text
/// is a function of it.
#[verifier::external_body]
fn to_display(at: Timestamp) -> (text: Option<String>)
    ensures
        text is Some <==> representable(at),
        text matches Some(t) ==> t@ == display_text(at.secs, at.nanos),
{
    match chrono::DateTime::from_timestamp(at.secs, at.nanos) {
        Some(utc) => Some(utc.to_string()),
        None => None,
    }
}

impl Timestamp {
    /// Whether this instant comes after the other.
    pub fn is_after(self, other: Timestamp) -> (after: bool)
        ensures
            after == later(self, other),
    {
        self.secs > other.secs || (self.secs == other.secs && self.nanos > other.nanos)
    }

    /// The instant the given number of seconds later.
    pub fn plus_seconds(self, seconds: i64) -> (sum: Timestamp)
        requires
            i64::MIN <= self.secs + seconds <= i64::MAX,
        ensures
            sum == plus_secs(self, seconds as int),
    {
        if self.nanos < NANOS_PER_SEC || seconds == 0 {
            Timestamp { secs: self.secs + seconds, nanos: self.nanos }
        } else if seconds > 0 {
            Timestamp { secs: self.secs + seconds, nanos: self.nanos - NANOS_PER_SEC }
        } else {
            Timestamp { secs: self.secs + seconds + 1, nanos: self.nanos - NANOS_PER_SEC }
        }
    }

    /// Whether the instant lies in the calendar's range.
    pub fn in_calendar(self) -> (inside: bool)
        ensures
            inside == representable(self),
    {
        if self.secs < MIN_SECS || self.secs > MAX_SECS {
            false
        } else if self.nanos < NANOS_PER_SEC {
            true
        } else {
            self.nanos < 2 * NANOS_PER_SEC && rem_minute(self.secs) == 59
        }
    }

    /// The time since the other instant, in nanoseconds.
    pub fn nanos_since(self, other: Timestamp) -> (elapsed: i128)
        ensures
            elapsed == elapsed_nanos(self, other),
    {
        let day: i64 = rem_day(self.secs);
        let other_day: i64 = rem_day(other.secs);
        let mut secs: i128 = self.secs as i128 - other.secs as i128;
        if day > other_day && other.nanos >= NANOS_PER_SEC {
            secs += 1;
        } else if day < other_day && self.nanos >= NANOS_PER_SEC {
            secs -= 1;
        }
        secs * 1_000_000_000 + (self.nanos as i128 - other.nanos as i128)
    }

    /// The instant in RFC 3339, or `None` outside of the calendar's range.
    pub fn rfc3339(self) -> (text: Option<String>)
        ensures
            text is Some <==> representable(self),
            text matches Some(t) ==> t@ == rfc3339_text(self.secs, self.nanos),
    {
        to_rfc3339(self)
    }

    /// The instant for people, or `None` outside of the calendar's range.
    pub fn display(self) -> (text: Option<String>)
        ensures
            text is Some <==> representable(self),
            text matches Some(t) ==> t@ == display_text(self.secs, self.nanos),
    {
        to_display(self)
    }
}

/// The second of the minute of a count of seconds.
fn rem_minute(secs: i64) -> (rem: i64)
    ensures
        rem == secs as int % 60,
{
    if secs >= 0 {
        secs % 60
    } else {
        // Counting up from the end of the minute keeps the remainder positive.
        59 - (-(secs + 1)) % 60
    }
}

/// The second of the day of a count of seconds.
fn rem_day(secs: i64) -> (rem: i64)
    ensures
        rem == secs as int % 86_400,
{
    if secs >= 0 {
        secs % 86_400
    } else {
        // Counting up from the end of the day keeps the remainder positive.
        86_399 - (-(secs + 1)) % 86_400
    }
}

} // verus!
