use chrono::Datelike;
use track::calendar::{days_in_month, next_date, Date, Time};
use track::resolve::{get_bounds, resolve_end, resolve_start, Absolute, Bound, RangeSpec};

fn date(y: i32, m: u8, d: u8) -> Date {
    Date::new(y, m, d).expect("a valid date")
}

fn time(h: u8, m: u8) -> Time {
    Time::new(h, m).expect("a valid time")
}

#[test]
fn date_validity() {
    assert!(Date::new(2024, 2, 29).is_some());
    assert!(Date::new(2023, 2, 29).is_none());
    assert!(Date::new(1900, 2, 29).is_none());
    assert!(Date::new(2000, 2, 29).is_some());
    assert!(Date::new(2024, 4, 31).is_none());
    assert!(Date::new(2024, 13, 1).is_none());
    assert!(Date::new(2024, 0, 1).is_none());
    assert!(Date::new(2024, 1, 0).is_none());
    assert!(Time::new(23, 59).is_some());
    assert!(Time::new(24, 0).is_none());
    assert!(Time::new(10, 60).is_none());
}

#[test]
fn month_lengths_match_the_calendar() {
    assert_eq!(days_in_month(2023, 2), 28);
    assert_eq!(days_in_month(2024, 2), 29);
    assert_eq!(days_in_month(1900, 2), 28);
    assert_eq!(days_in_month(2000, 2), 29);
    for (m, expected) in [(1, 31), (4, 30), (6, 30), (7, 31), (9, 30), (11, 30), (12, 31)] {
        assert_eq!(days_in_month(2023, m), expected);
    }
}

#[test]
fn next_date_agrees_with_the_calendar_crate() {
    let samples = [
        (2024, 2, 28),
        (2024, 2, 29),
        (2023, 2, 28),
        (2023, 12, 31),
        (2024, 1, 31),
        (2024, 4, 30),
        (1999, 12, 31),
        (1900, 2, 28),
    ];
    for (y, m, d) in samples {
        let ours = next_date(date(y, m as u8, d as u8));
        let theirs = chrono::NaiveDate::from_ymd_opt(y, m, d as u32)
            .unwrap()
            .succ_opt()
            .unwrap();
        assert_eq!(
            (ours.year, ours.month as u32, ours.day as u32),
            (theirs.year(), theirs.month(), theirs.day())
        );
    }
}

#[test]
fn date_end_semantics() {
    // A bare date as an end bound means the following midnight; as a start
    // bound it means that day's own midnight.
    let d = date(2024, 6, 15);
    let anchor = date(2030, 1, 1);
    let (ed, et) = resolve_end(Absolute::Date(d), anchor);
    assert_eq!((ed.year, ed.month, ed.day), (2024, 6, 16));
    assert_eq!((et.hour, et.minute), (0, 0));
    let (sd, st) = resolve_start(Absolute::Date(d), anchor);
    assert_eq!((sd.year, sd.month, sd.day), (2024, 6, 15));
    assert_eq!((st.hour, st.minute), (0, 0));
}

#[test]
fn bare_times_take_their_date_from_the_context() {
    let today = date(2024, 6, 15);
    let (sd, st) = resolve_start(Absolute::Time(time(9, 30)), today);
    assert_eq!((sd.year, sd.month, sd.day), (2024, 6, 15));
    assert_eq!((st.hour, st.minute), (9, 30));
    let anchor = date(2024, 6, 20);
    let (ed, et) = resolve_end(Absolute::Time(time(17, 0)), anchor);
    assert_eq!((ed.year, ed.month, ed.day), (2024, 6, 20));
    assert_eq!((et.hour, et.minute), (17, 0));
}

#[test]
fn full_datetimes_resolve_to_themselves() {
    let d = date(2024, 6, 15);
    let t = time(12, 34);
    let anchor = date(2000, 1, 1);
    assert_eq!(resolve_start(Absolute::DateTime(d, t), anchor), (d, t));
    assert_eq!(resolve_end(Absolute::DateTime(d, t), anchor), (d, t));
}

#[test]
fn range_selectors_map_to_bounds() {
    assert_eq!(get_bounds(None), (Bound::Unspecified, Bound::Unspecified));
    assert_eq!(
        get_bounds(Some(RangeSpec::Past {
            weeks: 1,
            days: 2,
            hours: 3,
            minutes: 4
        })),
        (
            Bound::Ago {
                weeks: 1,
                days: 2,
                hours: 3,
                minutes: 4
            },
            Bound::Now
        )
    );
    let d = date(2024, 6, 15);
    assert_eq!(
        get_bounds(Some(RangeSpec::Since { start: None })),
        (Bound::Unspecified, Bound::Now)
    );
    assert_eq!(
        get_bounds(Some(RangeSpec::Since {
            start: Some(Absolute::Date(d))
        })),
        (Bound::Absolute(Absolute::Date(d)), Bound::Now)
    );
    assert_eq!(
        get_bounds(Some(RangeSpec::Range {
            start: Some(Absolute::Date(d)),
            end: None
        })),
        (Bound::Absolute(Absolute::Date(d)), Bound::Unspecified)
    );
    assert_eq!(
        get_bounds(Some(RangeSpec::On { date: d })),
        (
            Bound::Absolute(Absolute::Date(d)),
            Bound::Absolute(Absolute::Date(d))
        )
    );
}
