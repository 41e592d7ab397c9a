//! Resolution of user-supplied time expressions into concrete instants.
//!
//! An [`Absolute`] is an always-absolute expression for a session's start or
//! end; a [`Bound`] is the wider form a range query accepts. The calendar
//! part of the resolution (which date, which clock time) is exact and fully
//! specified; only the final mapping of a local calendar time onto the UTC
//! timeline goes through the system timezone (see [`crate::clock`]).

use vstd::prelude::*;

use crate::calendar::next_date;
use crate::calendar::spec_next_date;
use crate::calendar::Date;
use crate::calendar::Time;
use crate::clock::instant_to_local_date;
use crate::clock::local_to_instant;
use crate::clock::spec_local_date_of;
use crate::clock::spec_local_instant;
use crate::instant::Instant;
use crate::instant::MAX_LOCAL_SECS;

verus! {

/// An absolute time expression: a full date-time, a bare date, or a bare
/// time of day. Which date or time a bare form denotes depends on whether
/// it stands as a start or as an end; see [`spec_start_parts`] and
/// [`spec_end_parts`].
#[derive(Clone, Copy, PartialEq, Eq, Structural, Debug)]
pub enum Absolute {
    DateTime(Date, Time),
    Date(Date),
    Time(Time),
}

impl Absolute {
    /// Every calendar component exists.
    pub open spec fn wf(self) -> bool {
        match self {
            Absolute::DateTime(d, t) => d.wf() && t.wf(),
            Absolute::Date(d) => d.wf(),
            Absolute::Time(t) => t.wf(),
        }
    }
}

/// One edge of a range query: left open, the present instant, an absolute
/// expression, or a span measured back from the present.
#[derive(Clone, Copy, PartialEq, Eq, Structural, Debug)]
pub enum Bound {
    Unspecified,
    Now,
    Absolute(Absolute),
    Ago { weeks: u32, days: u32, hours: u32, minutes: u32 },
}

impl Bound {
    /// Every calendar component of an absolute expression exists.
    pub open spec fn wf(self) -> bool {
        match self {
            Bound::Absolute(abs) => abs.wf(),
            _ => true,
        }
    }

    /// True for the left-open / right-open edge.
    pub fn is_unspecified(&self) -> (r: bool)
        ensures
            r == (*self is Unspecified),
    {
        matches!(self, Bound::Unspecified)
    }
}

/// A range selector as the caller's command line offers it: a span back
/// from the present, everything since a time, an explicit pair of edges, or
/// a single calendar day.
#[derive(Clone, Copy, PartialEq, Eq, Structural, Debug)]
pub enum RangeSpec {
    Past { weeks: u32, days: u32, hours: u32, minutes: u32 },
    Since { start: Option<Absolute> },
    Range { start: Option<Absolute>, end: Option<Absolute> },
    On { date: Date },
}

/// The pair of range edges a selector denotes; no selector means the whole
/// recorded history.
pub open spec fn spec_bounds(command: Option<RangeSpec>) -> (Bound, Bound) {
    match command {
        Some(RangeSpec::Past { weeks, days, hours, minutes }) => (
            Bound::Ago { weeks, days, hours, minutes },
            Bound::Now,
        ),
        Some(RangeSpec::Since { start }) => (spec_to_bound(start), Bound::Now),
        Some(RangeSpec::Range { start, end }) => (spec_to_bound(start), spec_to_bound(end)),
        Some(RangeSpec::On { date }) => (
            Bound::Absolute(Absolute::Date(date)),
            Bound::Absolute(Absolute::Date(date)),
        ),
        None => (Bound::Unspecified, Bound::Unspecified),
    }
}

/// An optional absolute expression as a range edge.
pub open spec fn spec_to_bound(abs: Option<Absolute>) -> Bound {
    match abs {
        Some(a) => Bound::Absolute(a),
        None => Bound::Unspecified,
    }
}

/// Turns a range selector into the pair of edges it denotes.
pub fn get_bounds(command: Option<RangeSpec>) -> (r: (Bound, Bound))
    ensures
        r == spec_bounds(command),
{
    match command {
        Some(RangeSpec::Past { weeks, days, hours, minutes }) => (
            Bound::Ago { weeks, days, hours, minutes },
            Bound::Now,
        ),
        Some(RangeSpec::Since { start }) => (to_bound(start), Bound::Now),
        Some(RangeSpec::Range { start, end }) => (to_bound(start), to_bound(end)),
        Some(RangeSpec::On { date }) => (
            Bound::Absolute(Absolute::Date(date)),
            Bound::Absolute(Absolute::Date(date)),
        ),
        None => (Bound::Unspecified, Bound::Unspecified),
    }
}

/// Turns an optional absolute expression into a range edge.
pub fn to_bound(abs: Option<Absolute>) -> (r: Bound)
    ensures
        r == spec_to_bound(abs),
{
    match abs {
        Some(a) => Bound::Absolute(a),
        None => Bound::Unspecified,
    }
}

/// The local calendar parts an expression denotes when it stands as a
/// session's start: a bare date means midnight of that day, a bare time
/// means that time on the reference day (today).
pub open spec fn spec_start_parts(abs: Absolute, today: Date) -> (Date, Time) {
    match abs {
        Absolute::DateTime(d, t) => (d, t),
        Absolute::Date(d) => (d, Time { hour: 0, minute: 0 }),
        Absolute::Time(t) => (today, t),
    }
}

/// The local calendar parts an expression denotes when it stands as a
/// session's end: a bare date means midnight of the day after (a bare end
/// date reads "through the end of that day"), a bare time means that time
/// on the anchor's day.
pub open spec fn spec_end_parts(abs: Absolute, anchor: Date) -> (Date, Time) {
    match abs {
        Absolute::DateTime(d, t) => (d, t),
        Absolute::Date(d) => (spec_next_date(d), Time { hour: 0, minute: 0 }),
        Absolute::Time(t) => (anchor, t),
    }
}

/// Resolves a start expression to its local calendar parts.
pub fn resolve_start(abs: Absolute, today: Date) -> (r: (Date, Time))
    ensures
        r == spec_start_parts(abs, today),
{
    match abs {
        Absolute::DateTime(d, t) => (d, t),
        Absolute::Date(d) => (d, Time::midnight()),
        Absolute::Time(t) => (today, t),
    }
}

/// Resolves an end expression to its local calendar parts.
pub fn resolve_end(abs: Absolute, anchor: Date) -> (r: (Date, Time))
    requires
        abs.wf(),
    ensures
        r == spec_end_parts(abs, anchor),
{
    match abs {
        Absolute::DateTime(d, t) => (d, t),
        Absolute::Date(d) => (next_date(d), Time::midnight()),
        Absolute::Time(t) => (anchor, t),
    }
}

/// What a resolved start instant satisfies: the calendar parts of
/// [`spec_start_parts`] mapped onto the timeline by the system timezone —
/// for a bare time of day, that time on the local date of the reference
/// instant, which must lie in the range whose local date may be asked for.
pub open spec fn spec_start_resolved(abs: Absolute, now: Instant, i: Instant) -> bool {
    match abs {
        Absolute::DateTime(d, t) => spec_local_instant(d, t, i),
        Absolute::Date(d) => spec_local_instant(d, Time { hour: 0, minute: 0 }, i),
        Absolute::Time(t) => now.local_safe() && exists|d: Date|
            (#[trigger] spec_local_date_of(now, d)) && spec_local_instant(d, t, i),
    }
}

/// What a resolved end instant satisfies: the calendar parts of
/// [`spec_end_parts`] mapped onto the timeline by the system timezone — a
/// bare end date means the following midnight, a bare time of day means
/// that time on the anchor's local date.
pub open spec fn spec_end_resolved(abs: Absolute, anchor: Instant, i: Instant) -> bool {
    match abs {
        Absolute::DateTime(d, t) => spec_local_instant(d, t, i),
        Absolute::Date(d) => spec_local_instant(spec_next_date(d), Time { hour: 0, minute: 0 }, i),
        Absolute::Time(t) => anchor.local_safe() && exists|d: Date|
            (#[trigger] spec_local_date_of(anchor, d)) && spec_local_instant(d, t, i),
    }
}

/// Resolves a start expression to an instant: the calendar parts from
/// [`resolve_start`] (today taken as the reference instant's local date),
/// mapped onto the UTC timeline by the system timezone. `None` when the
/// local time cannot be mapped.
pub fn start_instant(abs: Absolute, now: Instant) -> (r: Option<Instant>)
    requires
        abs.wf(),
    ensures
        r matches Some(i) ==> i.in_range() && spec_start_resolved(abs, now, i),
        abs matches Absolute::Time(_) && !now.local_safe() ==> r is None,
{
    match abs {
        Absolute::DateTime(d, t) => local_to_instant(d, t),
        Absolute::Date(d) => local_to_instant(d, Time::midnight()),
        Absolute::Time(t) => {
            if -MAX_LOCAL_SECS <= now.secs && now.secs <= MAX_LOCAL_SECS {
                let today = instant_to_local_date(now);
                let r = local_to_instant(today, t);
                proof {
                    if let Some(i) = r {
                        assert(spec_local_date_of(now, today) && spec_local_instant(today, t, i));
                    }
                }
                r
            } else {
                None
            }
        },
    }
}

/// Resolves an end expression to an instant: the calendar parts from
/// [`resolve_end`] (the anchor's local date carrying a bare time of day),
/// mapped onto the UTC timeline by the system timezone. `None` when the
/// local time cannot be mapped.
pub fn end_instant(abs: Absolute, anchor: Instant) -> (r: Option<Instant>)
    requires
        abs.wf(),
    ensures
        r matches Some(i) ==> i.in_range() && spec_end_resolved(abs, anchor, i),
        abs matches Absolute::Time(_) && !anchor.local_safe() ==> r is None,
{
    match abs {
        Absolute::DateTime(d, t) => local_to_instant(d, t),
        Absolute::Date(d) => {
            let nd = next_date(d);
            local_to_instant(nd, Time::midnight())
        },
        Absolute::Time(t) => {
            if -MAX_LOCAL_SECS <= anchor.secs && anchor.secs <= MAX_LOCAL_SECS {
                let day = instant_to_local_date(anchor);
                let r = local_to_instant(day, t);
                proof {
                    if let Some(i) = r {
                        assert(spec_local_date_of(anchor, day) && spec_local_instant(day, t, i));
                    }
                }
                r
            } else {
                None
            }
        },
    }
}

} // verus!
