use chrono::Datelike;
use track::calendar::{Date, Time};
use track::error::TrackError;
use track::ledger::Position;
use track::parse::{parse_abs, parse_date, parse_name, parse_notes, parse_position};
use track::resolve::Absolute;

#[test]
fn positions_parse_as_last_or_positive_index() {
    assert_eq!(parse_position("last"), Ok(Position::Last));
    assert_eq!(parse_position("1"), Ok(Position::Index(1)));
    assert_eq!(parse_position("3"), Ok(Position::Index(3)));
    assert_eq!(parse_position("007"), Ok(Position::Index(7)));
    assert_eq!(parse_position("+7"), Ok(Position::Index(7)));
}

#[test]
fn bad_positions_are_refused() {
    for bad in ["", "0", "-1", "abc", "1.5", "+", "last ", "LAST", "99999999999999999999999"] {
        assert_eq!(parse_position(bad), Err(TrackError::BadPosition), "{bad:?}");
    }
}

#[test]
fn names_are_trimmed_and_must_not_be_blank() {
    assert_eq!(parse_name("alpha"), Ok("alpha".to_string()));
    assert_eq!(parse_name("  alpha beta "), Ok("alpha beta".to_string()));
    assert_eq!(parse_name(""), Err(TrackError::EmptyName));
    assert_eq!(parse_name("   "), Err(TrackError::EmptyName));
    assert_eq!(parse_name("\t\n"), Err(TrackError::EmptyName));
}

#[test]
fn notes_are_trimmed_but_may_be_empty() {
    assert_eq!(parse_notes(" did things  "), "did things");
    assert_eq!(parse_notes("   "), "");
    assert_eq!(parse_notes(""), "");
}

#[test]
fn dates_parse_in_the_exact_form() {
    assert_eq!(parse_date("15/06/21"), Ok(Date { year: 2021, month: 6, day: 15 }));
    assert_eq!(parse_date("01/01/69"), Ok(Date { year: 2069, month: 1, day: 1 }));
    assert_eq!(parse_date("31/12/70"), Ok(Date { year: 1970, month: 12, day: 31 }));
    assert_eq!(parse_date("29/02/24"), Ok(Date { year: 2024, month: 2, day: 29 }));
}

#[test]
fn malformed_or_impossible_dates_are_refused() {
    for bad in [
        "",
        "29/02/23",
        "31/04/24",
        "00/01/21",
        "15-06-21",
        "15/6/21",
        "15/06/2021",
        "aa/bb/cc",
    ] {
        assert_eq!(
            parse_date(bad),
            Err(TrackError::MalformedTimeExpression),
            "{bad:?}"
        );
    }
}

#[test]
fn parsed_dates_agree_with_the_calendar_crate() {
    for good in ["15/06/21", "01/01/69", "31/12/70", "29/02/24", "28/02/23", "31/12/99"] {
        let ours = parse_date(good).expect("accepted form");
        let theirs = chrono::NaiveDate::parse_from_str(good, "%d/%m/%y").expect("chrono agrees");
        assert_eq!(
            (ours.year, ours.month as u32, ours.day as u32),
            (theirs.year(), theirs.month(), theirs.day())
        );
    }
}

#[test]
fn time_expressions_parse_in_their_three_forms() {
    assert_eq!(
        parse_abs("09:30"),
        Ok(Absolute::Time(Time { hour: 9, minute: 30 }))
    );
    assert_eq!(
        parse_abs("23:59"),
        Ok(Absolute::Time(Time { hour: 23, minute: 59 }))
    );
    assert_eq!(
        parse_abs("15/06/21"),
        Ok(Absolute::Date(Date { year: 2021, month: 6, day: 15 }))
    );
    assert_eq!(
        parse_abs("15/06/21-09:30"),
        Ok(Absolute::DateTime(
            Date { year: 2021, month: 6, day: 15 },
            Time { hour: 9, minute: 30 }
        ))
    );
}

#[test]
fn malformed_time_expressions_are_refused() {
    for bad in [
        "",
        "24:00",
        "12:60",
        "9:30",
        "09.30",
        "15/06/21 09:30",
        "15/06/21-9:30",
        "15/06/21-",
        "30/02/24-09:30",
    ] {
        assert_eq!(
            parse_abs(bad),
            Err(TrackError::MalformedTimeExpression),
            "{bad:?}"
        );
    }
}
