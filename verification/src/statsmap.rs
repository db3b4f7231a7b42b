//! The shared statistics map of the aggregating delivery stage.
//!
//! One entry per work unit name, updated in place by the samplers and
//! periodically swapped out whole by the writer task. The map is an
//! association list with unique names; its contracts speak of the sequence
//! of `(name, stats)` pairs.

use vstd::prelude::*;
use crate::stats::AlgorithmStats;
use vstd::math::{min, max};

verus! {

/// Relies on `str`'s `PartialEq`: two string slices are equal exactly when
/// their character sequences are.
#[verifier::external_body]
fn str_eq(a: &str, b: &str) -> (r: bool)
    ensures
        r == (a@ == b@),
{
    a == b
}

/// The pairs a map or snapshot holds, with names as character sequences.
pub open spec fn pairs_of(entries: Seq<(String, AlgorithmStats)>) -> Seq<(Seq<char>, AlgorithmStats)> {
    entries.map_values(|e: (String, AlgorithmStats)| (e.0@, e.1))
}

/// Names are pairwise distinct and every entry's statistics are well formed.
pub open spec fn wf_pairs(ps: Seq<(Seq<char>, AlgorithmStats)>) -> bool {
    &&& forall|i: int, j: int| 0 <= i < j < ps.len() ==> ps[i].0 != ps[j].0
    &&& forall|i: int| 0 <= i < ps.len() ==> (#[trigger] ps[i]).1.wf()
}

/// Whether some entry carries the name `n`.
pub open spec fn has_name(ps: Seq<(Seq<char>, AlgorithmStats)>, n: Seq<char>) -> bool {
    exists|i: int| 0 <= i < ps.len() && (#[trigger] ps[i]).0 == n
}

/// The index of the entry named `n`.
pub open spec fn idx_of(ps: Seq<(Seq<char>, AlgorithmStats)>, n: Seq<char>) -> int {
    choose|i: int| 0 <= i < ps.len() && (#[trigger] ps[i]).0 == n
}

/// The statistics recorded under `n`.
pub open spec fn stats_for(ps: Seq<(Seq<char>, AlgorithmStats)>, n: Seq<char>) -> AlgorithmStats {
    ps[idx_of(ps, n)].1
}

/// The statistics map: name to running statistics, names unique.
pub struct StatsMap {
    entries: Vec<(String, AlgorithmStats)>,
}

/// A snapshot taken from the live map at flush time: the same pairs, owned
/// by the writer task alone.
pub struct StatsSnapshot {
    pub entries: Vec<(String, AlgorithmStats)>,
}

impl View for StatsMap {
    type V = Seq<(Seq<char>, AlgorithmStats)>;

    closed spec fn view(&self) -> Seq<(Seq<char>, AlgorithmStats)> {
        pairs_of(self.entries@)
    }
}

impl View for StatsSnapshot {
    type V = Seq<(Seq<char>, AlgorithmStats)>;

    open spec fn view(&self) -> Seq<(Seq<char>, AlgorithmStats)> {
        pairs_of(self.entries@)
    }
}

impl StatsSnapshot {
    /// A snapshot with no entries.
    pub fn empty() -> (s: Self)
        ensures
            s@ =~= Seq::<(Seq<char>, AlgorithmStats)>::empty(),
    {
        StatsSnapshot { entries: Vec::new() }
    }

    /// Number of entries.
    pub fn len(&self) -> (n: usize)
        ensures
            n == self@.len(),
    {
        self.entries.len()
    }

    /// Whether the snapshot holds no entries at all — the condition under
    /// which a flush tick writes nothing.
    pub fn is_empty(&self) -> (r: bool)
        ensures
            r == (self@.len() == 0),
    {
        self.entries.len() == 0
    }
}

impl StatsMap {
    /// The map invariant.
    pub open spec fn wf(self) -> bool {
        wf_pairs(self@)
    }

    /// An empty map.
    pub fn new() -> (m: Self)
        ensures
            m.wf(),
            m@ =~= Seq::<(Seq<char>, AlgorithmStats)>::empty(),
    {
        StatsMap { entries: Vec::new() }
    }

    /// Fold one sample into the entry named `name`, creating the entry on
    /// first sight of the name. Returns `false` — leaving the map unchanged —
    /// only when that entry's run counter is saturated.
    pub fn record(&mut self, name: &str, d: u64) -> (recorded: bool)
        requires
            old(self).wf(),
        ensures
            final(self).wf(),
            !has_name(old(self)@, name@) ==> {
                &&& recorded
                &&& final(self)@ =~= old(self)@.push(
                    (name@, AlgorithmStats { runs: 1, total_nanos: d as u128, min_nanos: d, max_nanos: d }),
                )
            },
            has_name(old(self)@, name@) && stats_for(old(self)@, name@).runs < u64::MAX ==> {
                &&& recorded
                &&& final(self)@.len() == old(self)@.len()
                &&& final(self)@ =~= old(self)@.update(
                    idx_of(old(self)@, name@),
                    (name@, fold_step(stats_for(old(self)@, name@), d)),
                )
            },
            has_name(old(self)@, name@) && stats_for(old(self)@, name@).runs == u64::MAX ==> {
                &&& !recorded
                &&& final(self)@ =~= old(self)@
            },
    {
        let n = self.entries.len();
        let mut i: usize = 0;
        while i < n
            invariant
                self.wf(),
                self@ == old(self)@,
                n == self.entries@.len(),
                i <= n,
                forall|j: int| 0 <= j < i ==> (#[trigger] self@[j]).0 != name@,
            decreases n - i,
        {
            if str_eq(self.entries[i].0.as_str(), name) {
                proof {
                    assert(self@[i as int].0 == name@);
                    assert(has_name(self@, name@));
                    assert(idx_of(self@, name@) == i as int) by {
                        let k = idx_of(self@, name@);
                        assert(0 <= k < self@.len() && self@[k].0 == name@);
                        if k != i as int {
                            assert(self@[k].0 != self@[i as int].0);
                        }
                    }
                }
                let stats = self.entries[i].1;
                if stats.runs == u64::MAX {
                    proof {
                        assert(self@ =~= old(self)@);
                    }
                    return false;
                }
                let mut updated = stats;
                updated.record(d);
                let name_owned = self.entries[i].0.clone();
                self.entries.set(i, (name_owned, updated));
                proof {
                    assert(fold_step(stats, d) == updated);
                    assert(self@ =~= old(self)@.update(
                        i as int,
                        (name@, fold_step(stats, d)),
                    ));
                }
                return true;
            }
            i = i + 1;
        }
        proof {
            assert(!has_name(self@, name@));
        }
        let mut fresh = AlgorithmStats::new();
        fresh.record(d);
        self.entries.push((String::from_str(name), fresh));
        proof {
            assert(self@ =~= old(self)@.push(
                (name@, AlgorithmStats { runs: 1, total_nanos: d as u128, min_nanos: d, max_nanos: d }),
            ));
        }
        true
    }

    /// Swap the whole map for an empty one in a single step and hand the
    /// extracted pairs to the caller: the live map is empty afterwards and
    /// the snapshot holds exactly what the map held.
    pub fn take_snapshot(&mut self) -> (snap: StatsSnapshot)
        requires
            old(self).wf(),
        ensures
            final(self).wf(),
            final(self)@ =~= Seq::<(Seq<char>, AlgorithmStats)>::empty(),
            snap@ =~= old(self)@,
            wf_pairs(snap@),
    {
        let mut taken: Vec<(String, AlgorithmStats)> = Vec::new();
        core::mem::swap(&mut self.entries, &mut taken);
        StatsSnapshot { entries: taken }
    }

    /// Number of entries.
    pub fn len(&self) -> (n: usize)
        ensures
            n == self@.len(),
    {
        self.entries.len()
    }
}

/// What one `record` step does to a statistics value, as a map from old
/// state and duration to new state.
pub open spec fn fold_step(s: AlgorithmStats, d: u64) -> AlgorithmStats {
    AlgorithmStats {
        runs: (s.runs + 1) as u64,
        total_nanos: (s.total_nanos + d) as u128,
        min_nanos: (if s.runs == 0 {
            d as int
        } else {
            min(s.min_nanos as int, d as int)
        }) as u64,
        max_nanos: (if s.runs == 0 {
            d as int
        } else {
            max(s.max_nanos as int, d as int)
        }) as u64,
    }
}

} // verus!
