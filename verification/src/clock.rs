//! The two places where the library touches the machine: the mapping of a
//! local calendar time onto the UTC timeline, and the local calendar date
//! of an instant. Both depend on the system timezone, so their results are
//! described by uninterpreted relations — no determinism is claimed, only
//! that each returned value stands in the relation — and the logic around
//! them is verified for every value they could hand back.

use vstd::prelude::*;

use chrono::Datelike;
use chrono::TimeZone;

use crate::calendar::Date;
use crate::calendar::Time;
use crate::instant::Instant;

verus! {

/// Holds when the system timezone maps the local calendar time `(d, t)`
/// onto the instant `i`. The mapping depends on the machine's timezone
/// database, so it is named as a relation, not pinned as a function: a
/// contract can say *which calendar time* an instant came from, without
/// claiming what the mapping computes.
pub uninterp spec fn spec_local_instant(d: Date, t: Time, i: Instant) -> bool;

/// Holds when the instant `i` falls on the local calendar date `d` under
/// the system timezone. A relation for the same reason as
/// [`spec_local_instant`].
pub uninterp spec fn spec_local_date_of(i: Instant, d: Date) -> bool;

/// Maps a local calendar time onto the UTC timeline using the system
/// timezone. Returns `None` when the date or time does not exist for the
/// time crate (out of its range) or when the local time is skipped or
/// repeated around a timezone transition.
///
/// Relies on `chrono::NaiveDate::from_ymd_opt`,
/// `chrono::NaiveTime::from_hms_opt`, `chrono::Local::from_local_datetime`
/// (taking only an unambiguous mapping, via `MappedLocalTime::single`) and
/// `chrono::DateTime::timestamp`; the bound on the result holds because
/// every datetime the crate represents lies within its documented range of
/// roughly 262,000 years around the common era.
#[verifier::external_body]
pub(crate) fn local_to_instant(d: Date, t: Time) -> (r: Option<Instant>)
    ensures
        r matches Some(i) ==> i.in_range() && spec_local_instant(d, t, i),
{
    let date = chrono::NaiveDate::from_ymd_opt(d.year, d.month as u32, d.day as u32)?;
    let time = chrono::NaiveTime::from_hms_opt(t.hour as u32, t.minute as u32, 0)?;
    let mapped = chrono::Local.from_local_datetime(&date.and_time(time)).single()?;
    Some(Instant { secs: mapped.timestamp() })
}

/// The local calendar date of an instant, under the system timezone.
///
/// Relies on `chrono::DateTime::from_timestamp` (which accepts every second
/// count admitted here, as they lie well inside its documented range),
/// `chrono::DateTime::with_timezone`, `chrono::DateTime::date_naive` (which
/// cannot overflow here, the margin left by
/// [`crate::instant::MAX_LOCAL_SECS`] exceeding any UTC offset) and the
/// `chrono::Datelike` accessors, which return a date that exists in the
/// calendar within the crate's documented year range.
#[verifier::external_body]
pub(crate) fn instant_to_local_date(i: Instant) -> (r: Date)
    requires
        i.local_safe(),
    ensures
        r.wf(),
        spec_local_date_of(i, r),
{
    let utc = chrono::DateTime::<chrono::Utc>::from_timestamp(i.secs, 0).unwrap();
    let local = utc.with_timezone(&chrono::Local).date_naive();
    Date { year: local.year(), month: local.month() as u8, day: local.day() as u8 }
}

} // verus!
