use track::error::TrackError;
use track::instant::Instant;
use track::ledger::{Activity, Position, Session};
use track::resolve::Bound;

fn secs(s: i64) -> Instant {
    Instant::new(s)
}

fn add_ok(a: &mut Activity, start: i64, end: i64, now: i64) -> usize {
    a.add(secs(start), secs(end), String::new(), secs(now))
        .expect("insert should succeed")
}

#[test]
fn overlap_rejection_leaves_ledger_unchanged() {
    // Sessions 10:00-11:00 and 10:30-10:45 on the same day, as seconds.
    let mut a = Activity::new();
    add_ok(&mut a, 36000, 39600, 100000);
    let r = a.add(secs(37800), secs(38700), String::new(), secs(100000));
    assert_eq!(r, Err(TrackError::Overlap { index: 0 }));
    assert_eq!(a.sessions.len(), 1);
    assert_eq!(a.sessions[0].start.secs, 36000);
    assert_eq!(a.sessions[0].end.secs, 39600);
}

#[test]
fn touching_sessions_are_rejected() {
    let mut a = Activity::new();
    add_ok(&mut a, 100, 200, 100000);
    let r = a.add(secs(200), secs(300), String::new(), secs(100000));
    assert_eq!(r, Err(TrackError::Overlap { index: 0 }));
    let r = a.add(secs(50), secs(100), String::new(), secs(100000));
    assert_eq!(r, Err(TrackError::Overlap { index: 0 }));
}

#[test]
fn inserts_keep_ascending_order_and_non_overlap() {
    let mut a = Activity::new();
    let i1 = add_ok(&mut a, 500, 600, 100000);
    let i2 = add_ok(&mut a, 100, 200, 100000);
    let i3 = add_ok(&mut a, 300, 400, 100000);
    assert_eq!((i1, i2, i3), (0, 0, 1));
    let starts: Vec<i64> = a.sessions.iter().map(|s| s.start.secs).collect();
    assert_eq!(starts, vec![100, 300, 500]);
    for w in 0..a.sessions.len() - 1 {
        assert!(a.sessions[w].end.secs <= a.sessions[w + 1].start.secs);
    }
}

#[test]
fn temporal_checks_are_reported_first() {
    let mut a = Activity::new();
    assert_eq!(
        a.add(secs(200), secs(200), String::new(), secs(100000)),
        Err(TrackError::EndNotAfterStart)
    );
    assert_eq!(
        a.add(secs(200), secs(100), String::new(), secs(100000)),
        Err(TrackError::EndNotAfterStart)
    );
    assert_eq!(
        a.add(secs(200), secs(300), String::new(), secs(250)),
        Err(TrackError::EndInFuture)
    );
    assert_eq!(a.sessions.len(), 0);
}

#[test]
fn parse_index_resolves_positions() {
    let mut a = Activity::new();
    assert_eq!(a.parse_index(Position::Last), Err(TrackError::NoSessions));
    add_ok(&mut a, 100, 200, 100000);
    add_ok(&mut a, 300, 400, 100000);
    assert_eq!(a.parse_index(Position::Last), Ok(1));
    assert_eq!(a.parse_index(Position::Index(1)), Ok(0));
    assert_eq!(a.parse_index(Position::Index(2)), Ok(1));
    assert_eq!(
        a.parse_index(Position::Index(3)),
        Err(TrackError::NoSuchSession)
    );
}

#[test]
fn remove_at_keeps_the_rest_in_order() {
    let mut a = Activity::new();
    add_ok(&mut a, 100, 200, 100000);
    add_ok(&mut a, 300, 400, 100000);
    add_ok(&mut a, 500, 600, 100000);
    let removed = a.remove_at(1);
    assert_eq!(removed.start.secs, 300);
    let starts: Vec<i64> = a.sessions.iter().map(|s| s.start.secs).collect();
    assert_eq!(starts, vec![100, 500]);
}

#[test]
fn full_range_query_returns_every_session_once_in_order() {
    let mut a = Activity::new();
    add_ok(&mut a, 100, 200, 100000);
    add_ok(&mut a, 300, 400, 100000);
    add_ok(&mut a, 500, 600, 100000);
    let (from, to) = a
        .convert_bounds(Bound::Unspecified, Bound::Unspecified, secs(100000))
        .expect("whole history resolves");
    assert_eq!(from.secs, 100);
    assert_eq!(to.secs, 600);
    let (lo, hi) = a.get_in_range(from, to);
    assert_eq!((lo, hi), (0, 3));
}

#[test]
fn session_lifecycle_start_end_cancel() {
    let mut a = Activity::new();
    assert_eq!(a.cancel_session(), Err(TrackError::NoOngoing));
    assert_eq!(
        a.end_session(String::new(), secs(500)),
        Err(TrackError::NoOngoing)
    );
    assert_eq!(a.start_session(secs(100)), Ok(()));
    assert_eq!(a.start_session(secs(150)), Err(TrackError::AlreadyOngoing));
    assert_eq!(a.ongoing_duration(secs(160)), Ok(60));
    assert_eq!(a.ongoing_duration(secs(50)), Ok(0));
    let i = a
        .end_session(String::from("notes"), secs(200))
        .expect("end should record the session");
    assert_eq!(i, 0);
    assert!(a.ongoing.is_none());
    assert_eq!(a.sessions.len(), 1);
    assert_eq!(a.sessions[0].start.secs, 100);
    assert_eq!(a.sessions[0].end.secs, 200);
    assert_eq!(a.sessions[0].notes, "notes");
    assert_eq!(a.ongoing_duration(secs(300)), Err(TrackError::NoOngoing));
}

#[test]
fn ending_before_the_start_is_refused_and_keeps_the_session_open() {
    let mut a = Activity::new();
    assert_eq!(a.start_session(secs(1000)), Ok(()));
    assert_eq!(
        a.end_session(String::new(), secs(900)),
        Err(TrackError::EndNotAfterStart)
    );
    assert_eq!(a.ongoing, Some(secs(1000)));
    assert_eq!(a.cancel_session(), Ok(()));
    assert!(a.ongoing.is_none());
}

#[test]
fn check_wf_accepts_good_and_refuses_bad_ledgers() {
    let mut a = Activity::new();
    add_ok(&mut a, 100, 200, 100000);
    add_ok(&mut a, 300, 400, 100000);
    assert!(a.check_wf());
    let bad = Activity {
        ongoing: None,
        sessions: vec![
            Session::new(secs(300), secs(400), String::new()),
            Session::new(secs(100), secs(200), String::new()),
        ],
    };
    assert!(!bad.check_wf());
    let backwards = Activity {
        ongoing: None,
        sessions: vec![Session::new(secs(200), secs(100), String::new())],
    };
    assert!(!backwards.check_wf());
}
