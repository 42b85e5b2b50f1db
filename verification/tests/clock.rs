use chrono::{DateTime, Utc};
use portus::clock::{Timestamp, MAX_SECS, MIN_SECS, NANOS_PER_SEC};

fn utc(t: Timestamp) -> DateTime<Utc> {
    DateTime::from_timestamp(t.secs, t.nanos).unwrap()
}

#[test]
fn calendar_ends_where_chrono_ends_it() {
    assert_eq!(DateTime::<Utc>::MIN_UTC.timestamp(), MIN_SECS);
    assert_eq!(DateTime::<Utc>::MAX_UTC.timestamp(), MAX_SECS);
    for (secs, nanos) in [
        (MIN_SECS, 0),
        (MIN_SECS - 1, 0),
        (MAX_SECS, 0),
        (MAX_SECS, 999_999_999),
        (MAX_SECS + 1, 0),
        (59, 1_999_999_999),
        (59, 2_000_000_000),
        (58, 1_000_000_000),
        (58, 999_999_999),
        (-1, 1_500_000_000),
        (0, 1_500_000_000),
    ] {
        let at = Timestamp { secs, nanos };
        let chrono_knows_it = DateTime::<Utc>::from_timestamp(secs, nanos).is_some();
        assert_eq!(at.rfc3339().is_some(), chrono_knows_it);
        assert_eq!(at.display().is_some(), chrono_knows_it);
        assert_eq!(at.in_calendar(), chrono_knows_it);
        let whole = nanos < NANOS_PER_SEC;
        let leap = nanos < 2 * NANOS_PER_SEC && secs.rem_euclid(60) == 59;
        assert_eq!(
            (MIN_SECS..=MAX_SECS).contains(&secs) && (whole || leap),
            chrono_knows_it
        );
    }
}

#[test]
fn rfc3339_writes_the_instant_out() {
    let at = Timestamp { secs: 1_700_000_000, nanos: 0 };
    assert_eq!(at.rfc3339().unwrap(), "2023-11-14T22:13:20+00:00");
    let at = Timestamp { secs: 1_700_000_000, nanos: 500_000_000 };
    assert_eq!(at.rfc3339().unwrap(), "2023-11-14T22:13:20.500+00:00");
}

#[test]
fn display_writes_the_instant_for_people() {
    let at = Timestamp { secs: 1_700_000_000, nanos: 0 };
    assert_eq!(at.display().unwrap(), "2023-11-14 22:13:20 UTC");
}

#[test]
fn order_and_differences_are_those_of_chrono() {
    let instants = [
        Timestamp { secs: 0, nanos: 0 },
        Timestamp { secs: 0, nanos: 1 },
        Timestamp { secs: 59, nanos: 999_999_999 },
        Timestamp { secs: 59, nanos: 1_500_000_000 },
        Timestamp { secs: 60, nanos: 0 },
        Timestamp { secs: 86_399, nanos: 1_000_000_001 },
        Timestamp { secs: 86_400, nanos: 3 },
        Timestamp { secs: -1, nanos: 7 },
        Timestamp { secs: -1, nanos: 1_200_000_000 },
        Timestamp { secs: -86_401, nanos: 1_999_999_999 },
        Timestamp { secs: 1_700_000_000, nanos: 123_456_789 },
    ];
    for a in instants {
        for b in instants {
            assert_eq!(a.is_after(b), utc(a) > utc(b));
            let difference = utc(a) - utc(b);
            let nanos = difference.num_seconds() as i128 * 1_000_000_000
                + difference.subsec_nanos() as i128;
            assert_eq!(a.nanos_since(b), nanos, "{:?} {:?}", a, b);
        }
    }
}

#[test]
fn seconds_are_added_as_chrono_adds_them() {
    for secs in [0, 59, -60, 1_700_000_000] {
        for added in [0, 1, 300, -1, -300] {
            let at = Timestamp { secs, nanos: 12_345 };
            let sum = utc(at) + chrono::Duration::seconds(added);
            assert_eq!(utc(at.plus_seconds(added)), sum);
        }
    }
}

#[test]
fn seconds_are_added_to_leap_seconds_as_chrono_adds_them() {
    for (secs, nanos) in [
        (59, 1_000_000_000),
        (59, 1_500_000_000),
        (86_399, 1_999_999_999),
        (-1, 1_200_000_000),
    ] {
        for added in [0, 1, 60, 300, -1, -60, -300] {
            let at = Timestamp { secs, nanos };
            let sum = utc(at) + chrono::Duration::seconds(added);
            assert_eq!(utc(at.plus_seconds(added)), sum, "{:?} {}", at, added);
        }
    }
    let leap = Timestamp { secs: 59, nanos: 1_500_000_000 };
    assert_eq!(leap.plus_seconds(1), Timestamp { secs: 60, nanos: 500_000_000 });
    assert_eq!(leap.plus_seconds(-1), Timestamp { secs: 59, nanos: 500_000_000 });
    assert_eq!(leap.plus_seconds(0), leap);
}
