//! The session ledger: one activity's ordered, non-overlapping collection of
//! recorded time intervals, with ordered insertion, positional lookup and
//! range-containment queries.

use vstd::prelude::*;

use crate::error::TrackError;
use crate::instant::Instant;

verus! {

/// A position a caller may name: the last recorded session, or a 1-based
/// index as the session listing displays it.
#[derive(Clone, Copy, PartialEq, Eq, Structural, Debug)]
pub enum Position {
    Index(usize),
    Last,
}

/// One completed, recorded time interval with free-text notes.
pub struct Session {
    pub start: Instant,
    pub end: Instant,
    pub notes: String,
}

impl Session {
    /// The interval is genuinely ordered and both edges are representable.
    pub open spec fn wf(self) -> bool {
        &&& self.start.in_range()
        &&& self.end.in_range()
        &&& self.start.secs < self.end.secs
    }

    pub fn new(start: Instant, end: Instant, notes: String) -> (r: Session)
        ensures
            r == (Session { start, end, notes }),
    {
        Session { start, end, notes }
    }
}

/// The session at `a` lies entirely before the session at `b`.
pub open spec fn spec_disjoint(a: Session, b: Session) -> bool {
    a.end.secs <= b.start.secs
}

/// An interval touches or crosses the candidate interval `[start, end]`.
/// Insertion treats even mere touching as a conflict, so the intervals the
/// ledger accumulates are separated strictly.
pub open spec fn spec_overlaps(a: Session, start: int, end: int) -> bool {
    a.end.secs >= start && end >= a.start.secs
}

/// The ledger invariant: every session is well-formed, and the sequence is
/// ordered so that each session ends no later than any later one starts.
/// Ascending order by start follows, as does pairwise non-overlap.
pub open spec fn ledger_wf(s: Seq<Session>) -> bool {
    &&& forall|i: int| 0 <= i < s.len() ==> (#[trigger] s[i]).wf()
    &&& forall|i: int, j: int|
        #![trigger s[i], s[j]]
        0 <= i < j < s.len() ==> s[i].end.secs <= s[j].start.secs
}

/// The ledger of one activity: its recorded sessions in ascending start
/// order, plus the start of a currently open, not yet closed session, if
/// one exists.
pub struct Activity {
    pub ongoing: Option<Instant>,
    pub sessions: Vec<Session>,
}

/// `lo` and `hi` delimit the contiguous slice of the sorted ledger whose
/// sessions intersect the half-open range `[from, to)`: everything before
/// `lo` ends by `from`, everything from `hi` on starts at or after `to`,
/// and the slice itself lies strictly inside on both counts.
pub open spec fn slice_bounds(s: Seq<Session>, from: int, to: int, lo: int, hi: int) -> bool {
    &&& 0 <= lo <= hi <= s.len()
    &&& forall|k: int| 0 <= k < lo ==> (#[trigger] s[k]).end.secs <= from
    &&& lo < s.len() ==> s[lo].end.secs > from
    &&& forall|k: int| lo <= k < hi ==> (#[trigger] s[k]).start.secs < to
    &&& forall|k: int| hi <= k < s.len() ==> (#[trigger] s[k]).start.secs >= to
}

impl Activity {
    /// The ledger invariant, plus representability of the open session.
    pub open spec fn wf(self) -> bool {
        &&& ledger_wf(self.sessions@)
        &&& match self.ongoing {
            Some(i) => i.in_range(),
            None => true,
        }
    }

    /// A fresh activity: no sessions, nothing ongoing.
    pub fn new() -> (r: Activity)
        ensures
            r.ongoing is None,
            r.sessions@.len() == 0,
            r.wf(),
    {
        Activity { ongoing: None, sessions: Vec::new() }
    }

    /// Decides the ledger invariant at run time, for data arriving from
    /// untrusted storage.
    pub fn check_wf(&self) -> (b: bool)
        ensures
            b == self.wf(),
    {
        if let Some(i) = self.ongoing {
            if !(-crate::instant::MAX_INSTANT_SECS <= i.secs
                && i.secs <= crate::instant::MAX_INSTANT_SECS) {
                return false;
            }
        }
        let len = self.sessions.len();
        let mut k: usize = 0;
        while k < len
            invariant
                k <= len,
                len == self.sessions@.len(),
                forall|i: int| 0 <= i < k ==> (#[trigger] self.sessions@[i]).wf(),
                forall|i: int|
                    0 < i < k ==> self.sessions@[i - 1].end.secs <= (#[trigger] self.sessions@[i]).start.secs,
            decreases len - k,
        {
            let s = &self.sessions[k];
            if !(-crate::instant::MAX_INSTANT_SECS <= s.start.secs
                && s.start.secs <= crate::instant::MAX_INSTANT_SECS
                && -crate::instant::MAX_INSTANT_SECS <= s.end.secs
                && s.end.secs <= crate::instant::MAX_INSTANT_SECS
                && s.start.secs < s.end.secs) {
                assert(!(self.sessions@[k as int]).wf());
                return false;
            }
            if k > 0 && self.sessions[k - 1].end.secs > s.start.secs {
                assert(!ledger_wf(self.sessions@));
                return false;
            }
            k += 1;
        }
        proof {
            lemma_adjacent_implies_ledger_wf(self.sessions@);
        }
        true
    }

    /// The position of the last session (0 on an empty ledger, as a
    /// placeholder the callers never use for lookup).
    pub fn last(&self) -> (r: usize)
        ensures
            self.sessions@.len() == 0 ==> r == 0,
            self.sessions@.len() > 0 ==> r == self.sessions@.len() - 1,
    {
        if self.sessions.len() == 0 {
            return 0;
        }
        self.sessions.len() - 1
    }

    /// Resolves a caller-facing position to a 0-based ledger index: `last`
    /// names the highest-sorted session; a 1-based index names that
    /// position. An empty ledger, or an index past the end, is an error.
    pub fn parse_index(&self, pos: Position) -> (r: Result<usize, TrackError>)
        requires
            pos matches Position::Index(i) ==> i >= 1,
        ensures
            match r {
                Ok(k) => self.sessions@.len() > 0 && k < self.sessions@.len() && k
                    == spec_position_index(pos, self.sessions@.len() as int),
                Err(e) => if self.sessions@.len() == 0 {
                    e == TrackError::NoSessions
                } else {
                    e == TrackError::NoSuchSession && spec_position_index(
                        pos,
                        self.sessions@.len() as int,
                    ) >= self.sessions@.len()
                },
            },
    {
        if self.sessions.len() == 0 {
            return Err(TrackError::NoSessions);
        }
        let k = match pos {
            Position::Last => self.last(),
            Position::Index(i) => i - 1,
        };
        if k >= self.sessions.len() {
            return Err(TrackError::NoSuchSession);
        }
        Ok(k)
    }

    /// Ordered insertion with overlap rejection. Scans the sorted ledger
    /// forward; refuses a candidate that does not end after it starts, or
    /// that ends in the future, or that touches any existing session (the
    /// error names the first conflicting one); otherwise splices the new
    /// session in at the position that keeps the ledger sorted, and returns
    /// that position.
    pub fn add(&mut self, start: Instant, end: Instant, notes: String, now: Instant) -> (r: Result<
        usize,
        TrackError,
    >)
        requires
            old(self).wf(),
            start.in_range(),
            end.in_range(),
        ensures
            final(self).ongoing == old(self).ongoing,
            match r {
                Ok(i) => {
                    &&& final(self).wf()
                    &&& start.secs < end.secs && end.secs <= now.secs
                    &&& 0 <= i <= old(self).sessions@.len()
                    &&& final(self).sessions@ == old(self).sessions@.insert(
                        i as int,
                        Session { start, end, notes },
                    )
                    &&& forall|k: int|
                        0 <= k < old(self).sessions@.len() ==> !spec_overlaps(
                            #[trigger] old(self).sessions@[k],
                            start.secs as int,
                            end.secs as int,
                        )
                    &&& forall|k: int|
                        0 <= k < i ==> (#[trigger] old(self).sessions@[k]).end.secs < start.secs
                    &&& i < old(self).sessions@.len() ==> end.secs
                        < old(self).sessions@[i as int].start.secs
                },
                Err(e) => {
                    &&& final(self).sessions@ == old(self).sessions@
                    &&& (e == TrackError::EndNotAfterStart || e == TrackError::EndInFuture || (
                    e matches TrackError::Overlap { .. }))
                    &&& (e == TrackError::EndNotAfterStart <==> end.secs <= start.secs)
                    &&& (e == TrackError::EndInFuture <==> start.secs < end.secs && end.secs
                        > now.secs)
                    &&& ((e matches TrackError::Overlap { .. }) <==> (start.secs < end.secs
                        && end.secs <= now.secs && exists|k: int|
                        0 <= k < old(self).sessions@.len() && spec_overlaps(
                            #[trigger] old(self).sessions@[k],
                            start.secs as int,
                            end.secs as int,
                        )))
                    &&& (e matches TrackError::Overlap { index } ==> index
                        < old(self).sessions@.len() && spec_overlaps(
                        old(self).sessions@[index as int],
                        start.secs as int,
                        end.secs as int,
                    ) && forall|m: int|
                        0 <= m < index ==> !spec_overlaps(
                            #[trigger] old(self).sessions@[m],
                            start.secs as int,
                            end.secs as int,
                        ))
                },
            },
    {
        if end.secs <= start.secs {
            return Err(TrackError::EndNotAfterStart);
        }
        if end.secs > now.secs {
            return Err(TrackError::EndInFuture);
        }
        let len = self.sessions.len();
        let mut i: usize = 0;
        while i < len && end.secs >= self.sessions[i].start.secs
            invariant
                i <= len,
                len == self.sessions@.len(),
                self.sessions@ == old(self).sessions@,
                self.ongoing == old(self).ongoing,
                ledger_wf(self.sessions@),
                start.secs < end.secs,
                end.secs <= now.secs,
                forall|k: int|
                    0 <= k < i ==> (#[trigger] self.sessions@[k]).end.secs < start.secs,
            decreases len - i,
        {
            if self.sessions[i].end.secs >= start.secs {
                return Err(TrackError::Overlap { index: i });
            }
            i += 1;
        }
        proof {
            let s = self.sessions@;
            assert forall|k: int| 0 <= k < s.len() implies !spec_overlaps(
                #[trigger] s[k],
                start.secs as int,
                end.secs as int,
            ) by {
                if k >= i {
                    if i < s.len() && k > i {
                        assert(s[i as int].end.secs <= s[k].start.secs);
                    }
                }
            }
        }
        let new_session = Session { start, end, notes };
        proof {
            old(self).sessions@.insert_ensures(i as int, new_session);
        }
        self.sessions.insert(i, new_session);
        proof {
            let s_old = old(self).sessions@;
            let s2 = self.sessions@;
            assert forall|a: int, b: int|
                #![trigger s2[a], s2[b]]
                0 <= a < b < s2.len() implies s2[a].end.secs <= s2[b].start.secs by {
                if a < i && b < i {
                    assert(s2[a] == s_old[a] && s2[b] == s_old[b]);
                } else if a < i && b == i {
                    assert(s2[a] == s_old[a] && s2[b] == new_session);
                } else if a < i && b > i {
                    assert(s2[a] == s_old[a] && s2[b] == s_old[b - 1]);
                } else if a == i {
                    assert(s2[a] == new_session && s2[b] == s_old[b - 1]);
                    if b - 1 > i {
                        assert(s_old[i as int].end.secs <= s_old[b - 1].start.secs);
                        assert(s_old[i as int].wf());
                    }
                } else {
                    assert(s2[a] == s_old[a - 1] && s2[b] == s_old[b - 1]);
                }
            }
            assert forall|a: int| 0 <= a < s2.len() implies (#[trigger] s2[a]).wf() by {
                if a < i {
                    assert(s2[a] == s_old[a]);
                } else if a == i {
                    assert(s2[a] == new_session);
                } else {
                    assert(s2[a] == s_old[a - 1]);
                }
            }
        }
        Ok(i)
    }

    /// Removes the session at a (0-based, in-range) ledger index and hands
    /// it back; the rest keep their order.
    pub fn remove_at(&mut self, k: usize) -> (r: Session)
        requires
            old(self).wf(),
            k < old(self).sessions@.len(),
        ensures
            r == old(self).sessions@[k as int],
            final(self).sessions@ == old(self).sessions@.remove(k as int),
            final(self).ongoing == old(self).ongoing,
            final(self).wf(),
    {
        proof {
            old(self).sessions@.remove_ensures(k as int);
        }
        let r = self.sessions.remove(k);
        proof {
            let s_old = old(self).sessions@;
            let s2 = self.sessions@;
            assert forall|a: int, b: int|
                #![trigger s2[a], s2[b]]
                0 <= a < b < s2.len() implies s2[a].end.secs <= s2[b].start.secs by {
                let a0: int = if a < k { a } else { a + 1 };
                let b0: int = if b < k { b } else { b + 1 };
                assert(s2[a] == s_old[a0] && s2[b] == s_old[b0]);
            }
            assert forall|a: int| 0 <= a < s2.len() implies (#[trigger] s2[a]).wf() by {
                let a0: int = if a < k { a } else { a + 1 };
                assert(s2[a] == s_old[a0]);
            }
        }
        r
    }

    /// The contiguous slice of the sorted ledger intersecting the half-open
    /// range `[from, to)`, as a pair of 0-based indices `[lo, hi)`. An
    /// empty slice (`lo == hi`) means no sessions in range, not an error.
    pub fn get_in_range(&self, from: Instant, to: Instant) -> (r: (usize, usize))
        requires
            self.wf(),
            from.secs < to.secs,
        ensures
            slice_bounds(self.sessions@, from.secs as int, to.secs as int, r.0 as int, r.1 as int),
            forall|k: int|
                r.0 <= k < r.1 ==> (#[trigger] self.sessions@[k]).end.secs > from.secs
                    && self.sessions@[k].start.secs < to.secs,
    {
        let len = self.sessions.len();
        let mut lo: usize = 0;
        while lo < len && self.sessions[lo].end.secs <= from.secs
            invariant
                lo <= len,
                len == self.sessions@.len(),
                forall|k: int|
                    0 <= k < lo ==> (#[trigger] self.sessions@[k]).end.secs <= from.secs,
            decreases len - lo,
        {
            lo += 1;
        }
        let mut hi: usize = lo;
        while hi < len && self.sessions[hi].start.secs < to.secs
            invariant
                lo <= hi <= len,
                len == self.sessions@.len(),
                forall|k: int|
                    lo <= k < hi ==> (#[trigger] self.sessions@[k]).start.secs < to.secs,
            decreases len - hi,
        {
            hi += 1;
        }
        proof {
            let s = self.sessions@;
            assert forall|k: int| hi <= k < s.len() implies (#[trigger] s[k]).start.secs
                >= to.secs by {
                if k > hi {
                    assert(s[hi as int].end.secs <= s[k].start.secs);
                    assert(s[hi as int].wf());
                }
            }
            assert forall|k: int| lo <= k < hi implies (#[trigger] s[k]).end.secs > from.secs
                && s[k].start.secs < to.secs by {
                assert(s[lo as int].end.secs > from.secs);
                if k > lo {
                    assert(s[lo as int].end.secs <= s[k].start.secs);
                    assert(s[k].wf());
                }
            }
        }
        (lo, hi)
    }
}

/// The 0-based index a position names in a ledger of the given length.
pub open spec fn spec_position_index(pos: Position, len: int) -> int {
    match pos {
        Position::Last => len - 1,
        Position::Index(i) => i - 1,
    }
}

/// Adjacent order plus well-formed sessions already give the full pairwise
/// ledger invariant.
proof fn lemma_adjacent_implies_ledger_wf(s: Seq<Session>)
    requires
        forall|i: int| 0 <= i < s.len() ==> (#[trigger] s[i]).wf(),
        forall|i: int| 0 < i < s.len() ==> s[i - 1].end.secs <= (#[trigger] s[i]).start.secs,
    ensures
        ledger_wf(s),
{
    assert forall|i: int, j: int|
        #![trigger s[i], s[j]]
        0 <= i < j < s.len() implies s[i].end.secs <= s[j].start.secs by {
        lemma_chain_order(s, i, j);
    }
}

proof fn lemma_chain_order(s: Seq<Session>, i: int, j: int)
    requires
        forall|k: int| 0 <= k < s.len() ==> (#[trigger] s[k]).wf(),
        forall|k: int| 0 < k < s.len() ==> s[k - 1].end.secs <= (#[trigger] s[k]).start.secs,
        0 <= i < j < s.len(),
    ensures
        s[i].end.secs <= s[j].start.secs,
    decreases j - i,
{
    if j > i + 1 {
        lemma_chain_order(s, i, j - 1);
        assert(s[j - 1].wf());
    }
}

/// The non-overlap and sort laws of the ledger, spelled out: under the
/// ledger invariant any two distinct sessions are disjoint (one ends before
/// the other starts), and the sequence is strictly ascending by start.
/// Every mutating ledger operation ensures the invariant, so both laws hold
/// after every operation.
pub proof fn lemma_ledger_invariants(s: Seq<Session>)
    requires
        ledger_wf(s),
    ensures
        forall|a: int, b: int|
            #![trigger s[a], s[b]]
            0 <= a < s.len() && 0 <= b < s.len() && a != b ==> spec_disjoint(s[a], s[b])
                || spec_disjoint(s[b], s[a]),
        forall|a: int, b: int|
            #![trigger s[a], s[b]]
            0 <= a < b < s.len() ==> s[a].start.secs < s[b].start.secs,
{
    assert forall|a: int, b: int|
        #![trigger s[a], s[b]]
        0 <= a < b < s.len() implies s[a].start.secs < s[b].start.secs by {
        assert(s[a].wf());
    }
}

/// Under the ledger invariant the range-slice characterisation pins its
/// indices: any two slices of the same ledger and range are the same slice,
/// so a range query has exactly one correct answer.
pub proof fn lemma_slice_bounds_unique(
    s: Seq<Session>,
    from: int,
    to: int,
    lo1: int,
    hi1: int,
    lo2: int,
    hi2: int,
)
    requires
        ledger_wf(s),
        from < to,
        slice_bounds(s, from, to, lo1, hi1),
        slice_bounds(s, from, to, lo2, hi2),
    ensures
        lo1 == lo2,
        hi1 == hi2,
{
    if lo1 < lo2 {
        assert(s[lo1].end.secs <= from && s[lo1].end.secs > from);
    }
    if lo2 < lo1 {
        assert(s[lo2].end.secs <= from && s[lo2].end.secs > from);
    }
    assert(lo1 == lo2);
    if hi1 < hi2 {
        assert(lo2 <= hi1);
        assert(s[hi1].start.secs < to);
        assert(s[hi1].start.secs >= to);
    }
    if hi2 < hi1 {
        assert(lo1 <= hi2);
        assert(s[hi2].start.secs < to);
        assert(s[hi2].start.secs >= to);
    }
}

/// The whole-history round trip: a range query over the span from the first
/// session's start to the last session's end selects every session in the
/// ledger, in order — the slice is exactly `[0, len)`.
pub proof fn lemma_full_range_query(s: Seq<Session>, lo: int, hi: int)
    requires
        ledger_wf(s),
        s.len() > 0,
        slice_bounds(s, s[0].start.secs as int, s[s.len() - 1].end.secs as int, lo, hi),
    ensures
        lo == 0,
        hi == s.len(),
{
    let from = s[0].start.secs as int;
    let to = s[s.len() - 1].end.secs as int;
    assert(s[0].wf());
    if lo > 0 {
        assert(s[0].end.secs <= from);
    }
    if hi < s.len() {
        assert(s[hi].start.secs >= to);
        assert(s[hi].wf());
        if hi < s.len() - 1 {
            assert(s[hi].end.secs <= s[s.len() - 1].start.secs);
            assert(s[s.len() - 1].wf());
        }
    }
}

} // verus!
