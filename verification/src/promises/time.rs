//! Instants: their order, their distance and the calendar.
use vstd::prelude::*;
use crate::clock::Timestamp;

verus! {

/// Instants are ordered by their seconds, and within a second by nanoseconds.
pub proof fn later_is_more_seconds_or_nanoseconds(a: Timestamp, b: Timestamp, after: bool)
    requires
        call_ensures(Timestamp::is_after, (a, b), after),
    ensures
        after <==> a.secs > b.secs || (a.secs == b.secs && a.nanos > b.nanos),
{
}

/// Adding seconds moves an instant by as many. From a leap second the way up is
/// one second shorter in its nanoseconds, and the way down leads to the same
/// nanoseconds one second later.
pub proof fn seconds_are_added(t: Timestamp, n: i64, sum: Timestamp)
    requires
        call_ensures(Timestamp::plus_seconds, (t, n), sum),
        i64::MIN <= t.secs + n <= i64::MAX,
        t.nanos < 2_000_000_000,
    ensures
        t.nanos < 1_000_000_000 ==> sum.secs == t.secs + n && sum.nanos == t.nanos,
        t.nanos >= 1_000_000_000 && n == 0 ==> sum == t,
        t.nanos >= 1_000_000_000 && n > 0 ==> sum.secs == t.secs + n && sum.nanos == t.nanos
            - 1_000_000_000,
        t.nanos >= 1_000_000_000 && n < 0 ==> sum.secs == t.secs + n + 1 && sum.nanos == t.nanos
            - 1_000_000_000,
{
}

/// The time between two instants outside of leap seconds is the difference of
/// their seconds and nanoseconds.
pub proof fn distance_is_the_difference(a: Timestamp, b: Timestamp, elapsed: i128)
    requires
        call_ensures(Timestamp::nanos_since, (a, b), elapsed),
        a.nanos < 1_000_000_000,
        b.nanos < 1_000_000_000,
    ensures
        elapsed == (a.secs - b.secs) * 1_000_000_000 + (a.nanos - b.nanos),
{
}

/// The way there is as long as the way back.
pub proof fn distance_is_the_same_both_ways(
    a: Timestamp,
    b: Timestamp,
    there: i128,
    back: i128,
)
    requires
        call_ensures(Timestamp::nanos_since, (a, b), there),
        call_ensures(Timestamp::nanos_since, (b, a), back),
    ensures
        there == -back,
{
}

/// The calendar goes from the year -262143 to the year 262142; only the last
/// second of a minute can be followed by a leap second.
pub proof fn calendar_has_its_ends(t: Timestamp, inside: bool)
    requires
        call_ensures(Timestamp::in_calendar, (t,), inside),
    ensures
        t.nanos < 1_000_000_000 ==> (inside <==> -8_334_601_228_800 <= t.secs
            <= 8_210_266_876_799),
        inside && t.nanos >= 1_000_000_000 ==> t.secs as int % 60 == 59 && t.nanos
            < 2_000_000_000,
        t.nanos >= 1_000_000_000 && t.nanos < 2_000_000_000 && t.secs as int % 60 == 59
            && -8_334_601_228_800 <= t.secs <= 8_210_266_876_799 ==> inside,
{
}

/// An instant can be written out exactly where the calendar has it.
pub proof fn instants_of_the_calendar_can_be_written(
    t: Timestamp,
    inside: bool,
    standard: Option<String>,
    display: Option<String>,
)
    requires
        call_ensures(Timestamp::in_calendar, (t,), inside),
        call_ensures(Timestamp::rfc3339, (t,), standard),
        call_ensures(Timestamp::display, (t,), display),
    ensures
        standard is Some <==> inside,
        display is Some <==> inside,
{
}

} // verus!
