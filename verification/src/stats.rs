//! Range-scoped statistics: over the slice of the ledger intersecting a
//! resolved range `[from, to)`, the session count, the total tracked time
//! clamped to the range, and the derived per-day and per-session averages.

use vstd::arithmetic::div_mod::lemma_div_is_ordered;
use vstd::arithmetic::div_mod::lemma_div_multiples_vanish;
use vstd::math::max;
use vstd::math::min;
use vstd::prelude::*;

use crate::instant::Instant;
use crate::ledger::slice_bounds;
use crate::ledger::Activity;
use crate::ledger::Session;

verus! {

/// How many seconds of a session fall inside the range `[from, to)`.
pub open spec fn spec_clamped_len(s: Session, from: int, to: int) -> int {
    min(s.end.secs as int, to) - max(s.start.secs as int, from)
}

/// Total seconds the sessions at indices `[lo, hi)` contribute to the range
/// `[from, to)`, each clamped to the range's edges. For the slice a range
/// query returns, only the first and last session can actually be cut: the
/// interior ones lie fully inside, so clamping them changes nothing.
pub open spec fn spec_clamped_total(s: Seq<Session>, from: int, to: int, lo: int, hi: int) -> int
    decreases hi - lo,
{
    if lo >= hi {
        0
    } else {
        spec_clamped_len(s[lo], from, to) + spec_clamped_total(s, from, to, lo + 1, hi)
    }
}

proof fn lemma_clamped_total_step(s: Seq<Session>, from: int, to: int, lo: int, j: int)
    requires
        lo <= j,
    ensures
        spec_clamped_total(s, from, to, lo, j + 1) == spec_clamped_total(s, from, to, lo, j)
            + spec_clamped_len(s[j], from, to),
    decreases j - lo,
{
    if lo < j {
        lemma_clamped_total_step(s, from, to, lo + 1, j);
    } else {
        assert(spec_clamped_total(s, from, to, j + 1, j + 1) == 0);
        assert(spec_clamped_total(s, from, to, lo, j) == 0);
    }
}

/// The report over one resolved range: the slice `[lo, hi)` of sessions in
/// range, their count, the clamped total of tracked seconds, the range's own
/// length, and the truncated per-day and per-session averages.
#[derive(Clone, Copy, PartialEq, Eq, Structural, Debug)]
pub struct RangeStats {
    pub lo: usize,
    pub hi: usize,
    pub count: usize,
    pub tracked_secs: u64,
    pub range_secs: u64,
    pub average_day_secs: u64,
    pub average_session_secs: u64,
}

impl Activity {
    /// Computes the statistics of the sessions intersecting `[from, to)`:
    /// `None` exactly when no session does; otherwise the count of sessions
    /// in the slice, the tracked seconds clamped to the range, the
    /// proportion of the range scaled to a full day
    /// (`tracked * 86400 / range`, truncated), and the tracked seconds per
    /// session (truncated).
    #[verifier::loop_isolation(false)]
    pub fn range_stats(&self, from: Instant, to: Instant) -> (r: Option<RangeStats>)
        requires
            self.wf(),
            from.secs < to.secs,
            to.secs - from.secs <= i64::MAX,
        ensures
            ({
                let s = self.sessions@;
                match r {
                    Some(st) => {
                        &&& slice_bounds(s, from.secs as int, to.secs as int, st.lo as int, st.hi as int)
                        &&& st.lo < st.hi
                        &&& st.count == st.hi - st.lo
                        &&& st.tracked_secs == spec_clamped_total(
                            s,
                            from.secs as int,
                            to.secs as int,
                            st.lo as int,
                            st.hi as int,
                        )
                        &&& st.tracked_secs <= to.secs - from.secs
                        &&& st.range_secs == to.secs - from.secs
                        &&& st.average_day_secs == (st.tracked_secs as int) * 86400 / (
                        st.range_secs as int)
                        &&& st.average_session_secs == (st.tracked_secs as int) / (st.count as int)
                    },
                    None => forall|k: int|
                        0 <= k < s.len() ==> (#[trigger] s[k]).end.secs <= from.secs
                            || s[k].start.secs >= to.secs,
                }
            }),
    {
        let (lo, hi) = self.get_in_range(from, to);
        if lo == hi {
            return None;
        }
        let ghost s = self.sessions@;
        let ghost gfrom = from.secs as int;
        let ghost gto = to.secs as int;
        let mut time: u64 = 0;
        let mut k: usize = lo;
        while k < hi
            invariant
                lo <= k <= hi,
                time == spec_clamped_total(s, gfrom, gto, lo as int, k as int),
                k == lo ==> time == 0,
                k > lo ==> time <= min(s[k - 1].end.secs as int, gto) - max(
                    s[lo as int].start.secs as int,
                    gfrom,
                ),
            decreases hi - k,
        {
            let sess = &self.sessions[k];
            let cs: i64 = if sess.start.secs > from.secs {
                sess.start.secs
            } else {
                from.secs
            };
            let ce: i64 = if sess.end.secs < to.secs {
                sess.end.secs
            } else {
                to.secs
            };
            proof {
                assert(s[k as int].wf());
                if k > lo {
                    assert(s[k - 1].end.secs <= s[k as int].start.secs);
                    assert(s[k - 1].wf());
                }
                lemma_clamped_total_step(s, gfrom, gto, lo as int, k as int);
            }
            let d: u64 = (ce - cs) as u64;
            time = time + d;
            k += 1;
        }
        proof {
            assert(time <= gto - gfrom) by {
                assert(s[lo as int].start.secs < gto);
            }
        }
        let count = hi - lo;
        let range: u64 = (to.secs - from.secs) as u64;
        let product: u128 = (time as u128) * 86400;
        let average_day: u64 = (product / (range as u128)) as u64;
        proof {
            // The scaled total cannot exceed a day: tracked <= range, so
            // tracked * 86400 / range <= range * 86400 / range == 86400.
            assert((time as int) * 86400 <= (range as int) * 86400) by (nonlinear_arith)
                requires
                    time <= range,
            ;
            lemma_div_is_ordered((time as int) * 86400, (range as int) * 86400, range as int);
            lemma_div_multiples_vanish(86400, range as int);
        }
        let average_session: u64 = time / (count as u64);
        Some(
            RangeStats {
                lo,
                hi,
                count,
                tracked_secs: time,
                range_secs: range,
                average_day_secs: average_day,
                average_session_secs: average_session,
            },
        )
    }
}

} // verus!
