//! The error kinds a core operation can report.
//!
//! Every operation of the library returns either a success value or exactly
//! one error describing the first violated precondition; no partial mutation
//! is committed on error. Storage failures are not represented here: the
//! caller that performs I/O reports those itself.

use vstd::prelude::*;

verus! {

/// Why a core operation was refused.
#[derive(Clone, Copy, PartialEq, Eq, Structural, Debug)]
pub enum TrackError {
    /// A name was empty or blank.
    EmptyName,
    /// A position was neither "last" nor a positive integer.
    BadPosition,
    /// A time expression was not written in one of the accepted forms
    /// (`dd/mm/yy`, `HH:MM`, `dd/mm/yy-HH:MM`) or names a date or time that
    /// does not exist in the calendar.
    MalformedTimeExpression,
    /// A time expression does not denote a representable local time
    /// (for example a clock time skipped by a daylight-saving jump).
    BadTimeExpression,
    /// An activity with this name already exists.
    DuplicateActivity,
    /// No activity with this name exists.
    NoSuchActivity,
    /// No activity is currently selected.
    NoActiveActivity,
    /// The ledger holds no sessions, but the operation needs at least one.
    NoSessions,
    /// No session with this index exists.
    NoSuchSession,
    /// An edit was requested with every field omitted.
    NoEdits,
    /// There is no ongoing session to end or cancel.
    NoOngoing,
    /// An ongoing session already exists.
    AlreadyOngoing,
    /// A session's end is not after its start.
    EndNotAfterStart,
    /// A session's end lies in the future.
    EndInFuture,
    /// The session overlaps the existing session at this ledger index.
    Overlap { index: usize },
    /// A resolved range's start is not before its end.
    EmptyRange,
}

} // verus!
