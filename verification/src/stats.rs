//! Running statistics for one work unit (aggregating delivery stage).
//!
//! Durations are whole nanoseconds. An `AlgorithmStats` value folds a stream
//! of samples into count, sum, minimum and maximum; its invariant
//! `min * runs <= total <= max * runs` is the division-free form of
//! "minimum <= mean <= maximum".

use vstd::prelude::*;
use vstd::math::{min, max};

verus! {

/// Count, sum, minimum and maximum of the durations reported so far for one
/// work unit, all folded in place. All fields are zero while no sample has
/// arrived.
#[derive(Clone, Copy, PartialEq, Eq, Structural, Debug)]
pub struct AlgorithmStats {
    pub runs: u64,
    pub total_nanos: u128,
    pub min_nanos: u64,
    pub max_nanos: u64,
}

impl AlgorithmStats {
    /// The invariant: identity values while empty; otherwise the mean lies
    /// between the minimum and the maximum.
    pub open spec fn wf(self) -> bool {
        if self.runs == 0 {
            self.total_nanos == 0 && self.min_nanos == 0 && self.max_nanos == 0
        } else {
            self.min_nanos <= self.max_nanos
                && self.min_nanos as int * self.runs as int <= self.total_nanos as int
                && self.total_nanos as int <= self.max_nanos as int * self.runs as int
        }
    }

    /// Fresh statistics: no runs, identity values everywhere.
    pub fn new() -> (s: Self)
        ensures
            s.wf(),
            s.runs == 0,
            s.total_nanos == 0,
            s.min_nanos == 0,
            s.max_nanos == 0,
    {
        AlgorithmStats { runs: 0, total_nanos: 0, min_nanos: 0, max_nanos: 0 }
    }

    /// Fold one sample of `d` nanoseconds in: the count grows by exactly one,
    /// the sum by exactly `d`, and the minimum and maximum are the pointwise
    /// minimum and maximum, all in one step.
    pub fn record(&mut self, d: u64)
        requires
            old(self).wf(),
            old(self).runs < u64::MAX,
        ensures
            final(self).wf(),
            final(self).runs == old(self).runs + 1,
            final(self).total_nanos == old(self).total_nanos + d,
            final(self).min_nanos as int == if old(self).runs == 0 {
                d as int
            } else {
                min(old(self).min_nanos as int, d as int)
            },
            final(self).max_nanos as int == if old(self).runs == 0 {
                d as int
            } else {
                max(old(self).max_nanos as int, d as int)
            },
    {
        let ghost o = *self;
        if self.runs == 0 {
            self.min_nanos = d;
            self.max_nanos = d;
        } else {
            if d < self.min_nanos {
                self.min_nanos = d;
            }
            if d > self.max_nanos {
                self.max_nanos = d;
            }
        }
        proof {
            let r = o.runs as int;
            let t = o.total_nanos as int;
            let dd = d as int;
            if o.runs > 0 {
                assert(t + dd <= u64::MAX as int * (u64::MAX as int - 1) + u64::MAX as int)
                    by (nonlinear_arith)
                    requires
                        t <= o.max_nanos as int * r,
                        o.max_nanos <= u64::MAX,
                        0 <= r <= u64::MAX as int - 1,
                        0 <= dd <= u64::MAX,
                        0 <= t,
                ;
                assert(u64::MAX as int * (u64::MAX as int - 1) + u64::MAX as int <= u128::MAX as int);
            }
        }
        self.runs = self.runs + 1;
        self.total_nanos = self.total_nanos + d as u128;
        proof {
            let r = o.runs as int;
            let t = o.total_nanos as int;
            let dd = d as int;
            let mn = self.min_nanos as int;
            let mx = self.max_nanos as int;
            if o.runs > 0 {
                assert(mn * (r + 1) <= t + dd) by (nonlinear_arith)
                    requires
                        mn <= o.min_nanos as int,
                        mn <= dd,
                        o.min_nanos as int * r <= t,
                        r >= 0,
                ;
                assert(t + dd <= mx * (r + 1)) by (nonlinear_arith)
                    requires
                        mx >= o.max_nanos as int,
                        mx >= dd,
                        t <= o.max_nanos as int * r,
                        r >= 0,
                ;
            }
        }
    }
}

/// Sum of a sequence of durations.
pub open spec fn seq_sum(s: Seq<u64>) -> int
    decreases s.len(),
{
    if s.len() == 0 {
        0
    } else {
        seq_sum(s.drop_last()) + s.last()
    }
}

/// Minimum of a nonempty sequence of durations (0 for the empty one).
pub open spec fn seq_min(s: Seq<u64>) -> int
    decreases s.len(),
{
    if s.len() == 0 {
        0
    } else if s.len() == 1 {
        s[0] as int
    } else {
        min(seq_min(s.drop_last()), s.last() as int)
    }
}

/// Maximum of a nonempty sequence of durations (0 for the empty one).
pub open spec fn seq_max(s: Seq<u64>) -> int
    decreases s.len(),
{
    if s.len() == 0 {
        0
    } else if s.len() == 1 {
        s[0] as int
    } else {
        max(seq_max(s.drop_last()), s.last() as int)
    }
}

/// The `(runs, total, min, max)` state reached by folding the durations of
/// `ds` one by one into fresh statistics, exactly as `record` does.
pub open spec fn replay(ds: Seq<u64>) -> (int, int, int, int)
    decreases ds.len(),
{
    if ds.len() == 0 {
        (0, 0, 0, 0)
    } else {
        let prev = replay(ds.drop_last());
        let d = ds.last() as int;
        (
            prev.0 + 1,
            prev.1 + d,
            if prev.0 == 0 {
                d
            } else {
                min(prev.2, d)
            },
            if prev.0 == 0 {
                d
            } else {
                max(prev.3, d)
            },
        )
    }
}

/// One more sample advances the replay by exactly the step that `record`'s
/// contract states: the count by one, the sum by the duration, minimum and
/// maximum pointwise.
pub proof fn lemma_replay_step(ds: Seq<u64>, d: u64)
    ensures
        replay(ds.push(d)).0 == replay(ds).0 + 1,
        replay(ds.push(d)).1 == replay(ds).1 + d,
        replay(ds.push(d)).2 == if replay(ds).0 == 0 {
            d as int
        } else {
            min(replay(ds).2, d as int)
        },
        replay(ds.push(d)).3 == if replay(ds).0 == 0 {
            d as int
        } else {
            max(replay(ds).3, d as int)
        },
{
    assert(ds.push(d).drop_last() =~= ds);
}

/// Folding a sequence of durations sample by sample — the step that
/// `record`'s contract states — yields exactly the mathematically expected
/// aggregates: the count, the sum, the minimum and the maximum of the
/// sequence.
pub proof fn lemma_replay_matches_aggregates(ds: Seq<u64>)
    ensures
        replay(ds).0 == ds.len(),
        replay(ds).1 == seq_sum(ds),
        ds.len() > 0 ==> replay(ds).2 == seq_min(ds),
        ds.len() > 0 ==> replay(ds).3 == seq_max(ds),
    decreases ds.len(),
{
    if ds.len() > 0 {
        lemma_replay_matches_aggregates(ds.drop_last());
    }
}

} // verus!
