//! The operations a caller invokes on one activity's ledger: resolving a
//! pair of range bounds, adding a session from absolute expressions, the
//! transactional edit, and the open-session (start/end/cancel) transitions.

use vstd::prelude::*;

use crate::error::TrackError;
use crate::instant::Instant;
use crate::instant::MAX_INSTANT_SECS;
use crate::ledger::spec_overlaps;
use crate::ledger::spec_position_index;
use crate::ledger::Activity;
use crate::ledger::Position;
use crate::ledger::Session;
use crate::resolve::end_instant;
use crate::resolve::spec_end_resolved;
use crate::resolve::spec_start_resolved;
use crate::resolve::start_instant;
use crate::resolve::Absolute;
use crate::resolve::Bound;

verus! {

/// The span, in seconds, that a relative "ago" bound reaches back.
pub open spec fn spec_ago_secs(weeks: u32, days: u32, hours: u32, minutes: u32) -> int {
    60 * (minutes + 60 * (hours as int) + 1440 * (days as int) + 10080 * (weeks as int))
}

/// The instant a lower range bound resolves to, where that value depends on
/// the arguments alone: the first session's start for an open edge (and for
/// the all-zero "ago", the whole-history shorthand), the present instant for
/// `Now`, and the present minus the span for a nonzero "ago". An absolute
/// expression resolves through the system timezone and is not pinned here.
pub open spec fn spec_lower_bound(b: Bound, s: Seq<Session>, now: int) -> Option<int> {
    match b {
        Bound::Unspecified => Some(s[0].start.secs as int),
        Bound::Now => Some(now),
        Bound::Ago { weeks, days, hours, minutes } => if weeks == 0 && days == 0 && hours == 0
            && minutes == 0 {
            Some(s[0].start.secs as int)
        } else {
            Some(now - spec_ago_secs(weeks, days, hours, minutes))
        },
        Bound::Absolute(_) => None,
    }
}

/// The instant an upper range bound resolves to, where that value depends
/// on the arguments alone: the last session's end for an open edge (and for
/// the all-zero "ago", mirroring the lower edge's whole-history shorthand),
/// the present instant for `Now`, and the present minus the span for a
/// nonzero "ago". An absolute expression resolves through the system
/// timezone and is not pinned here.
pub open spec fn spec_upper_bound(b: Bound, s: Seq<Session>, now: int) -> Option<int> {
    match b {
        Bound::Unspecified => Some(s[s.len() - 1].end.secs as int),
        Bound::Now => Some(now),
        Bound::Ago { weeks, days, hours, minutes } => if weeks == 0 && days == 0 && hours == 0
            && minutes == 0 {
            Some(s[s.len() - 1].end.secs as int)
        } else {
            Some(now - spec_ago_secs(weeks, days, hours, minutes))
        },
        Bound::Absolute(_) => None,
    }
}

/// What a resolved lower range edge satisfies: the pinned value of
/// [`spec_lower_bound`] where the machine decides nothing, and the start
/// resolution relation for an absolute expression.
pub open spec fn spec_lower_resolved(b: Bound, s: Seq<Session>, now: Instant, f: Instant) -> bool {
    match b {
        Bound::Absolute(a) => spec_start_resolved(a, now, f),
        _ => spec_lower_bound(b, s, now.secs as int) == Some(f.secs as int),
    }
}

/// What a resolved upper range edge satisfies: the pinned value of
/// [`spec_upper_bound`] where the machine decides nothing, and the end
/// resolution relation — anchored at the resolved lower edge — for an
/// absolute expression.
pub open spec fn spec_upper_resolved(
    b: Bound,
    s: Seq<Session>,
    now: Instant,
    anchor: Instant,
    t: Instant,
) -> bool {
    match b {
        Bound::Absolute(a) => spec_end_resolved(a, anchor, t),
        _ => spec_upper_bound(b, s, now.secs as int) == Some(t.secs as int),
    }
}

impl Activity {
    /// Resolves a pair of range bounds into a concrete half-open range
    /// `[from, to)`. The ledger must be non-empty (its edges stand in for
    /// open bounds), and the resolved range must be genuinely ordered;
    /// everything the system timezone does not decide is pinned by
    /// [`spec_lower_bound`] and [`spec_upper_bound`]. A bare time of day as
    /// the upper bound reads as that time on the lower bound's local date.
    pub fn convert_bounds(&self, from: Bound, to: Bound, now: Instant) -> (r: Result<
        (Instant, Instant),
        TrackError,
    >)
        requires
            self.wf(),
            from.wf(),
            to.wf(),
            now.in_range(),
        ensures
            ({
                let s = self.sessions@;
                let lv = spec_lower_bound(from, s, now.secs as int);
                let uv = spec_upper_bound(to, s, now.secs as int);
                match r {
                    Ok((f, t)) => {
                        &&& s.len() > 0
                        &&& f.secs < t.secs
                        &&& spec_lower_resolved(from, s, now, f)
                        &&& spec_upper_resolved(to, s, now, f, t)
                        &&& t.secs <= MAX_INSTANT_SECS
                        &&& t.secs - f.secs <= i64::MAX
                    },
                    Err(e) => {
                        &&& (e == TrackError::NoSessions <==> s.len() == 0)
                        &&& (e == TrackError::BadTimeExpression ==> ((from matches Bound::Absolute(
                            _,
                        )) || (to matches Bound::Absolute(_))))
                        &&& (s.len() > 0 ==> (lv matches Some(f0) ==> (uv matches Some(t0) ==> e
                            == TrackError::EmptyRange && f0 >= t0)))
                        &&& (e == TrackError::EmptyRange ==> s.len() > 0 && exists|
                            f: Instant,
                            t: Instant,
                        |
                            #![trigger spec_lower_resolved(from, s, now, f), spec_upper_resolved(to, s, now, f, t)]
                            spec_lower_resolved(from, s, now, f) && spec_upper_resolved(
                                to,
                                s,
                                now,
                                f,
                                t,
                            ) && f.secs >= t.secs)
                    },
                }
            }),
    {
        let len = self.sessions.len();
        if len == 0 {
            return Err(TrackError::NoSessions);
        }
        let f: Instant = match from {
            Bound::Unspecified => self.sessions[0].start,
            Bound::Now => now,
            Bound::Ago { weeks, days, hours, minutes } => {
                if weeks == 0 && days == 0 && hours == 0 && minutes == 0 {
                    self.sessions[0].start
                } else {
                    let total_minutes: i64 = minutes as i64 + 60 * (hours as i64) + 1440 * (
                    days as i64) + 10080 * (weeks as i64);
                    Instant { secs: now.secs - 60 * total_minutes }
                }
            },
            Bound::Absolute(abs) => {
                match start_instant(abs, now) {
                    Some(i) => i,
                    None => {
                        return Err(TrackError::BadTimeExpression);
                    },
                }
            },
        };
        let t: Instant = match to {
            Bound::Unspecified => self.sessions[len - 1].end,
            Bound::Now => now,
            Bound::Ago { weeks, days, hours, minutes } => {
                if weeks == 0 && days == 0 && hours == 0 && minutes == 0 {
                    self.sessions[len - 1].end
                } else {
                    let total_minutes: i64 = minutes as i64 + 60 * (hours as i64) + 1440 * (
                    days as i64) + 10080 * (weeks as i64);
                    Instant { secs: now.secs - 60 * total_minutes }
                }
            },
            Bound::Absolute(abs) => {
                match end_instant(abs, f) {
                    Some(i) => i,
                    None => {
                        return Err(TrackError::BadTimeExpression);
                    },
                }
            },
        };
        if f.secs >= t.secs {
            proof {
                assert(spec_lower_resolved(from, self.sessions@, now, f) && spec_upper_resolved(
                    to,
                    self.sessions@,
                    now,
                    f,
                    t,
                ));
            }
            return Err(TrackError::EmptyRange);
        }
        Ok((f, t))
    }

    /// Adds a session given as absolute start and end expressions: resolves
    /// both through the resolver (the end anchored at the resolved start)
    /// and splices the result in through ordered insertion, whose temporal
    /// and overlap checks decide acceptance.
    pub fn add_session(&mut self, start: Absolute, end: Absolute, notes: String, now: Instant) -> (
    r: Result<usize, TrackError>)
        requires
            old(self).wf(),
            start.wf(),
            end.wf(),
        ensures
            final(self).ongoing == old(self).ongoing,
            match r {
                Ok(i) => {
                    let ns = final(self).sessions@[i as int];
                    &&& final(self).wf()
                    &&& 0 <= i <= old(self).sessions@.len()
                    &&& final(self).sessions@ == old(self).sessions@.insert(i as int, ns)
                    &&& ns.notes == notes
                    &&& spec_start_resolved(start, now, ns.start)
                    &&& spec_end_resolved(end, ns.start, ns.end)
                    &&& ns.start.secs < ns.end.secs && ns.end.secs <= now.secs
                    &&& forall|k: int|
                        0 <= k < old(self).sessions@.len() ==> !spec_overlaps(
                            #[trigger] old(self).sessions@[k],
                            ns.start.secs as int,
                            ns.end.secs as int,
                        )
                },
                Err(e) => {
                    &&& final(self).sessions@ == old(self).sessions@
                    &&& (e == TrackError::BadTimeExpression || e == TrackError::EndNotAfterStart
                        || e == TrackError::EndInFuture || (e matches TrackError::Overlap { .. }))
                },
            },
    {
        let s_i = match start_instant(start, now) {
            Some(i) => i,
            None => {
                return Err(TrackError::BadTimeExpression);
            },
        };
        let e_i = match end_instant(end, s_i) {
            Some(i) => i,
            None => {
                return Err(TrackError::BadTimeExpression);
            },
        };
        let ghost inserted = Session { start: s_i, end: e_i, notes };
        let r = self.add(s_i, e_i, notes, now);
        proof {
            if let Ok(i) = r {
                old(self).sessions@.insert_ensures(i as int, inserted);
            }
        }
        r
    }

    /// Edits one session transactionally: removes it, fills unspecified
    /// fields from the removed session (a specified end resolves against
    /// the effective new start), and reinserts through ordered insertion.
    /// If anything is refused, the original session is put back and the
    /// ledger is exactly as before.
    pub fn edit_session(
        &mut self,
        pos: Position,
        start: Option<Absolute>,
        end: Option<Absolute>,
        notes: Option<String>,
        now: Instant,
    ) -> (r: Result<usize, TrackError>)
        requires
            old(self).wf(),
            pos matches Position::Index(i) ==> i >= 1,
            start matches Some(a) ==> a.wf(),
            end matches Some(a) ==> a.wf(),
        ensures
            final(self).ongoing == old(self).ongoing,
            ({
                let s_old = old(self).sessions@;
                let k = spec_position_index(pos, s_old.len() as int);
                match r {
                    Ok(i) => {
                        let ns = final(self).sessions@[i as int];
                        &&& s_old.len() > 0 && 0 <= k < s_old.len()
                        &&& (start is Some || end is Some || notes is Some)
                        &&& 0 <= i < final(self).sessions@.len()
                        &&& final(self).wf()
                        &&& final(self).sessions@ == s_old.remove(k).insert(i as int, ns)
                        &&& (start matches Some(a) ==> spec_start_resolved(a, now, ns.start))
                        &&& (start is None ==> ns.start == s_old[k].start)
                        &&& (end matches Some(a) ==> spec_end_resolved(a, ns.start, ns.end))
                        &&& (end is None ==> ns.end == s_old[k].end)
                        &&& ns.notes@ == match notes {
                            Some(n) => n@,
                            None => s_old[k].notes@,
                        }
                        &&& ns.start.secs < ns.end.secs && ns.end.secs <= now.secs
                        &&& forall|m: int|
                            0 <= m < s_old.remove(k).len() ==> !spec_overlaps(
                                #[trigger] s_old.remove(k)[m],
                                ns.start.secs as int,
                                ns.end.secs as int,
                            )
                    },
                    Err(e) => {
                        &&& final(self).sessions@ == s_old
                        &&& (e == TrackError::NoSessions <==> s_old.len() == 0)
                        &&& (s_old.len() > 0 ==> (e == TrackError::NoSuchSession <==> k
                            >= s_old.len()))
                        &&& (s_old.len() > 0 && 0 <= k < s_old.len() ==> (e == TrackError::NoEdits
                            <==> start is None && end is None && notes is None))
                        &&& (e == TrackError::BadTimeExpression ==> start is Some || end is Some)
                    },
                }
            }),
            // Success is owed when nothing is left to the machine or the
            // checks: a valid position, a notes-only edit, an interval that
            // has ended by `now` and touches nothing else in the ledger.
            ({
                let s_old = old(self).sessions@;
                let k = spec_position_index(pos, s_old.len() as int);
                (s_old.len() > 0 && 0 <= k < s_old.len() && start is None && end is None
                    && notes is Some && s_old[k].end.secs <= now.secs && (forall|m: int|
                    0 <= m < s_old.remove(k).len() ==> !spec_overlaps(
                        #[trigger] s_old.remove(k)[m],
                        s_old[k].start.secs as int,
                        s_old[k].end.secs as int,
                    ))) ==> r is Ok
            }),
    {
        let k = match self.parse_index(pos) {
            Ok(k) => k,
            Err(e) => {
                return Err(e);
            },
        };
        if start.is_none() && end.is_none() && notes.is_none() {
            return Err(TrackError::NoEdits);
        }
        let old_session = self.remove_at(k);
        let st = match start {
            Some(a) => {
                match start_instant(a, now) {
                    Some(i) => i,
                    None => {
                        self.restore_at(k, old_session);
                        return Err(TrackError::BadTimeExpression);
                    },
                }
            },
            None => old_session.start,
        };
        let en = match end {
            Some(a) => {
                match end_instant(a, st) {
                    Some(i) => i,
                    None => {
                        self.restore_at(k, old_session);
                        return Err(TrackError::BadTimeExpression);
                    },
                }
            },
            None => old_session.end,
        };
        let nt = match notes {
            Some(n) => n,
            None => old_session.notes.clone(),
        };
        proof {
            assert(st.in_range() && en.in_range()) by {
                assert(old(self).sessions@[k as int].wf());
            }
        }
        let ghost inserted = Session { start: st, end: en, notes: nt };
        let r = self.add(st, en, nt, now);
        match r {
            Ok(i) => {
                proof {
                    old(self).sessions@.remove(k as int).insert_ensures(i as int, inserted);
                }
                Ok(i)
            },
            Err(e) => {
                self.restore_at(k, old_session);
                Err(e)
            },
        }
    }

    /// Puts a just-removed session back at its old index, restoring the
    /// ledger exactly.
    fn restore_at(&mut self, k: usize, session: Session)
        requires
            k <= old(self).sessions@.len(),
        ensures
            final(self).sessions@ == old(self).sessions@.insert(k as int, session),
            final(self).ongoing == old(self).ongoing,
    {
        self.sessions.insert(k, session);
    }

    /// Opens a session at the given instant; refused when one is already
    /// open.
    pub fn start_session(&mut self, now: Instant) -> (r: Result<(), TrackError>)
        requires
            old(self).wf(),
            now.in_range(),
        ensures
            final(self).sessions@ == old(self).sessions@,
            match r {
                Ok(_) => old(self).ongoing is None && final(self).ongoing == Some(now) && final(self).wf(),
                Err(e) => e == TrackError::AlreadyOngoing && old(self).ongoing is Some && final(self).ongoing == old(self).ongoing,
            },
    {
        if self.ongoing.is_some() {
            return Err(TrackError::AlreadyOngoing);
        }
        self.ongoing = Some(now);
        Ok(())
    }

    /// Closes the open session at the given instant, recording it through
    /// ordered insertion. On any refusal the ledger and the open session
    /// are exactly as before.
    pub fn end_session(&mut self, notes: String, now: Instant) -> (r: Result<usize, TrackError>)
        requires
            old(self).wf(),
            now.in_range(),
        ensures
            match r {
                Ok(i) => {
                    &&& old(self).ongoing matches Some(st)
                    &&& final(self).ongoing is None
                    &&& final(self).wf()
                    &&& 0 <= i <= old(self).sessions@.len()
                    &&& (old(self).ongoing matches Some(st) ==> final(self).sessions@ == old(self).sessions@.insert(i as int, Session { start: st, end: now, notes })
                        && st.secs < now.secs)
                },
                Err(e) => {
                    &&& final(self).sessions@ == old(self).sessions@
                    &&& final(self).ongoing == old(self).ongoing
                    &&& (e == TrackError::NoOngoing <==> old(self).ongoing is None)
                    &&& (e == TrackError::NoOngoing || e == TrackError::EndNotAfterStart || (
                    e matches TrackError::Overlap { .. }))
                    &&& (old(self).ongoing matches Some(st) ==> (e == TrackError::EndNotAfterStart
                        <==> now.secs <= st.secs))
                    &&& (old(self).ongoing matches Some(st) ==> ((e matches TrackError::Overlap {
                        ..
                    }) <==> st.secs < now.secs && exists|k: int|
                        0 <= k < old(self).sessions@.len() && spec_overlaps(
                            #[trigger] old(self).sessions@[k],
                            st.secs as int,
                            now.secs as int,
                        )))
                },
            },
    {
        let st = match self.ongoing {
            Some(st) => st,
            None => {
                return Err(TrackError::NoOngoing);
            },
        };
        match self.add(st, now, notes, now) {
            Ok(i) => {
                self.ongoing = None;
                Ok(i)
            },
            Err(e) => Err(e),
        }
    }

    /// Forgets the open session; refused when none is open.
    pub fn cancel_session(&mut self) -> (r: Result<(), TrackError>)
        requires
            old(self).wf(),
        ensures
            final(self).sessions@ == old(self).sessions@,
            match r {
                Ok(_) => old(self).ongoing is Some && final(self).ongoing is None && final(self).wf(),
                Err(e) => e == TrackError::NoOngoing && old(self).ongoing is None && final(self).ongoing is None,
            },
    {
        if self.ongoing.is_some() {
            self.ongoing = None;
            Ok(())
        } else {
            Err(TrackError::NoOngoing)
        }
    }

    /// How long the open session has run by the given instant, in seconds;
    /// zero if the clock stands before the session's start.
    pub fn ongoing_duration(&self, now: Instant) -> (r: Result<u64, TrackError>)
        requires
            self.wf(),
            now.in_range(),
        ensures
            match r {
                Ok(d) => self.ongoing matches Some(st) && d == if now.secs >= st.secs {
                    (now.secs - st.secs) as int
                } else {
                    0
                },
                Err(e) => e == TrackError::NoOngoing && self.ongoing is None,
            },
    {
        match self.ongoing {
            Some(st) => {
                if now.secs >= st.secs {
                    Ok((now.secs - st.secs) as u64)
                } else {
                    Ok(0)
                }
            },
            None => Err(TrackError::NoOngoing),
        }
    }
}

} // verus!
