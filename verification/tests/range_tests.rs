use track::error::TrackError;
use track::instant::Instant;
use track::ledger::Activity;
use track::resolve::Bound;

fn secs(s: i64) -> Instant {
    Instant::new(s)
}

fn ledger(intervals: &[(i64, i64)]) -> Activity {
    let mut a = Activity::new();
    for &(s, e) in intervals {
        a.add(secs(s), secs(e), String::new(), secs(1_000_000))
            .expect("insert should succeed");
    }
    a
}

#[test]
fn range_slice_selects_only_intersecting_sessions() {
    let a = ledger(&[(1, 2), (3, 4), (5, 6)]);
    let (lo, hi) = a.get_in_range(secs(2), secs(5));
    assert_eq!((lo, hi), (1, 2));
    let (lo, hi) = a.get_in_range(secs(0), secs(10));
    assert_eq!((lo, hi), (0, 3));
    let (lo, hi) = a.get_in_range(secs(6), secs(10));
    assert_eq!((lo, hi), (3, 3));
}

#[test]
fn degenerate_range_is_rejected_upstream() {
    let a = ledger(&[(1, 2), (3, 4)]);
    // A resolved range with from >= to never reaches the range query.
    let r = a.convert_bounds(Bound::Now, Bound::Now, secs(100));
    assert_eq!(r, Err(TrackError::EmptyRange));
}

#[test]
fn convert_bounds_pins_the_machine_free_cases() {
    let a = ledger(&[(100, 200), (300, 400)]);
    let now = secs(5000);

    let (f, t) = a
        .convert_bounds(Bound::Unspecified, Bound::Unspecified, now)
        .unwrap();
    assert_eq!((f.secs, t.secs), (100, 400));

    let (f, t) = a.convert_bounds(Bound::Unspecified, Bound::Now, now).unwrap();
    assert_eq!((f.secs, t.secs), (100, 5000));

    let ago = Bound::Ago {
        weeks: 0,
        days: 0,
        hours: 1,
        minutes: 10,
    };
    let (f, t) = a.convert_bounds(ago, Bound::Now, now).unwrap();
    assert_eq!(f.secs, 5000 - 70 * 60);
    assert_eq!(t.secs, 5000);

    let zero_ago = Bound::Ago {
        weeks: 0,
        days: 0,
        hours: 0,
        minutes: 0,
    };
    let (f, t) = a.convert_bounds(zero_ago, Bound::Now, now).unwrap();
    assert_eq!((f.secs, t.secs), (100, 5000));
}

#[test]
fn convert_bounds_needs_a_session_and_an_ordered_range() {
    let empty = Activity::new();
    assert_eq!(
        empty.convert_bounds(Bound::Unspecified, Bound::Unspecified, secs(5000)),
        Err(TrackError::NoSessions)
    );
    let a = ledger(&[(100, 200)]);
    // now before the first session's start: [first.start, now) is empty.
    assert_eq!(
        a.convert_bounds(Bound::Unspecified, Bound::Now, secs(50)),
        Err(TrackError::EmptyRange)
    );
}

#[test]
fn clamped_statistics_over_partly_covered_sessions() {
    // Sessions 0-10 min and 20-30 min; query 5-25 min.
    let a = ledger(&[(0, 600), (1200, 1800)]);
    let st = a
        .range_stats(secs(300), secs(1500))
        .expect("two sessions intersect the range");
    assert_eq!(st.count, 2);
    assert_eq!(st.tracked_secs, 600);
    assert_eq!((st.lo, st.hi), (0, 2));
    assert_eq!(st.range_secs, 1200);
    // proportion is 600/1200 = 0.5, scaled to a day: 43200 seconds.
    assert_eq!(st.average_day_secs, 43200);
    assert_eq!(st.average_session_secs, 300);
}

#[test]
fn interior_sessions_count_in_full() {
    let a = ledger(&[(0, 100), (200, 300), (400, 500)]);
    let st = a.range_stats(secs(50), secs(450)).unwrap();
    assert_eq!(st.count, 3);
    // 50 + 100 + 50 of the three sessions fall inside.
    assert_eq!(st.tracked_secs, 200);
}

#[test]
fn empty_range_reports_no_sessions() {
    let a = ledger(&[(100, 200)]);
    assert!(a.range_stats(secs(300), secs(400)).is_none());
    assert!(a.range_stats(secs(0), secs(100)).is_none());
}
