//! Bookkeeping of the commit catch-up loop: per-peer vote observations,
//! the lag evaluation against the quorum frontier, and the schedule of
//! in-flight commit-fetch ranges — bounded in number and never
//! overlapping. The timer, the fetch tasks and their results live
//! outside; they call in with plain values.

use vstd::prelude::*;

use crate::committee::Committee;
use crate::monitor::{observe_all, quorum_frontier_spec, CommitVoteMonitor};
use crate::types::CommitRef;

verus! {

/// An inclusive range of commit indices scheduled for fetching.
#[derive(Clone, Copy, Debug, PartialEq, Eq, Structural)]
pub struct FetchRange {
    pub start: u32,
    pub end: u32,
}

/// Well-formedness of the in-flight queue: each range is ordered, and no
/// two ranges overlap — later entries start strictly after earlier ones
/// end.
pub open spec fn ranges_wf(pending: Seq<FetchRange>) -> bool {
    &&& forall|i: int| 0 <= i < pending.len() ==> (#[trigger] pending[i]).start <= pending[i].end
    &&& forall|i: int, j: int|
        0 <= i < j < pending.len() ==> (#[trigger] pending[i]).end < (#[trigger] pending[j]).start
}

/// The commit index of the sync target: the quorum frontier of the
/// observed commit votes under the committee's validity threshold.
pub open spec fn spec_sync_target(highest: Seq<CommitRef>, committee: Committee) -> Option<u32> {
    match quorum_frontier_spec(
        highest,
        committee.spec_stakes(),
        committee.spec_validity_threshold() as u64,
    ) {
        Some(c) => Some(c.index),
        None => None,
    }
}

/// The mutable state of the commit syncer: what each peer has voted for,
/// and which commit ranges are being fetched.
pub struct SyncerState {
    pub monitor: CommitVoteMonitor,
    pub pending: Vec<FetchRange>,
}

impl SyncerState {
    /// Well-formedness against the committee.
    pub open spec fn wf(self, committee: Committee) -> bool {
        &&& self.monitor.wf(committee)
        &&& ranges_wf(self.pending@)
    }

    /// A syncer that has observed nothing and fetches nothing.
    pub fn new(committee: &Committee) -> (r: SyncerState)
        requires
            committee.wf(),
        ensures
            r.wf(*committee),
            r.pending@.len() == 0,
            forall|i: int|
                0 <= i < r.monitor.highest@.len() ==> r.monitor.highest@[i] == (CommitRef {
                    index: 0u32,
                    digest: 0u64,
                }),
    {
        SyncerState { monitor: CommitVoteMonitor::new(committee), pending: Vec::new() }
    }

    /// Records the commit votes of a received block. Observations only
    /// raise the tracked per-peer values; the fetch queue is untouched.
    pub fn observe(&mut self, committee: &Committee, author: u32, votes: &Vec<CommitRef>)
        requires
            committee.wf(),
            old(self).wf(*committee),
            (author as int) < committee.spec_size(),
        ensures
            final(self).wf(*committee),
            final(self).monitor.highest@ == observe_all(
                old(self).monitor.highest@,
                author as int,
                votes@,
            ),
            final(self).pending@ == old(self).pending@,
    {
        self.monitor.observe(author, votes);
        proof {
            crate::monitor::lemma_observe_all_monotone(
                old(self).monitor.highest@,
                author as int,
                votes@,
            );
        }
    }

    /// Evaluates commit lag and extends the fetch schedule: when the local
    /// commit index trails the sync target by more than `lag_threshold`,
    /// new ranges of at most `batch_size` commits are appended after the
    /// queued ones, up to the target, while the queue holds fewer than
    /// `max_inflight` ranges. Returns exactly the ranges appended.
    pub fn schedule_fetches(
        &mut self,
        committee: &Committee,
        local_commit_index: u32,
        batch_size: u32,
        lag_threshold: u32,
        max_inflight: usize,
    ) -> (r: Vec<FetchRange>)
        requires
            committee.wf(),
            old(self).wf(*committee),
            batch_size >= 1,
        ensures
            final(self).wf(*committee),
            final(self).monitor == old(self).monitor,
            final(self).pending@ == old(self).pending@ + r@,
            match spec_sync_target(old(self).monitor.highest@, *committee) {
                None => r@.len() == 0,
                Some(t) => {
                    &&& (local_commit_index + lag_threshold >= t ==> r@.len() == 0)
                    &&& forall|i: int|
                        0 <= i < r@.len() ==> local_commit_index < (#[trigger] r@[i]).start
                            && r@[i].end <= t && r@[i].end - r@[i].start < batch_size
                    // Progress: when lag exceeds the threshold, the queue
                    // has room, and the queued ranges stop short of the
                    // target, at least one new range is scheduled.
                    &&& (local_commit_index + lag_threshold < t && old(self).pending@.len()
                        < max_inflight && (old(self).pending@.len() == 0 || old(
                        self,
                    ).pending@.last().end < t) ==> r@.len() > 0)
                    // Coverage: unless the concurrency cap stopped it, the
                    // schedule reaches the target.
                    &&& (r@.len() > 0 && final(self).pending@.len() < max_inflight ==> r@.last().end
                        == t)
                },
            },
    {
        let threshold = committee.validity_threshold();
        let frontier = self.monitor.quorum_frontier(committee, threshold);
        let target: u32 = match frontier {
            Some(c) => c.index,
            None => {
                let r: Vec<FetchRange> = Vec::new();
                proof {
                    assert(self.pending@ =~= self.pending@ + r@);
                }
                return r;
            },
        };
        if (local_commit_index as u64) + (lag_threshold as u64) >= (target as u64) {
            let r: Vec<FetchRange> = Vec::new();
            proof {
                assert(self.pending@ =~= self.pending@ + r@);
            }
            return r;
        }
        // The local index is strictly below the target, so the span
        // (local_commit_index, target] is non-empty.
        let mut next: u64 = (local_commit_index as u64) + 1;
        if self.pending.len() > 0 {
            let last = self.pending[self.pending.len() - 1];
            if last.end >= target {
                // The queued ranges already reach the target.
                let r: Vec<FetchRange> = Vec::new();
                proof {
                    assert(self.pending@ =~= self.pending@ + r@);
                }
                return r;
            }
            if last.end >= local_commit_index {
                next = (last.end as u64) + 1;
            }
        }
        let ghost old_pending = self.pending@;
        let ghost next0 = next as int;
        let mut out: Vec<FetchRange> = Vec::new();
        proof {
            assert(self.pending@ =~= old_pending + out@);
        }
        while next <= (target as u64) && self.pending.len() < max_inflight
            invariant
                next0 <= target as int,
                out@.len() == 0 ==> next == next0 && self.pending@.len() == old_pending.len(),
                out@.len() > 0 ==> (out@.last().end as int) == next - 1,
                committee.wf(),
                self.monitor == old(self).monitor,
                self.monitor.wf(*committee),
                old_pending == old(self).pending@,
                spec_sync_target(old(self).monitor.highest@, *committee) == Some(target),
                local_commit_index + lag_threshold < target,
                ranges_wf(self.pending@),
                self.pending@ == old_pending + out@,
                local_commit_index < next,
                batch_size >= 1,
                next <= (target as u64) + 1,
                forall|i: int|
                    0 <= i < self.pending@.len() ==> ((#[trigger] self.pending@[i]).end as u64)
                        < next,
                forall|i: int|
                    0 <= i < out@.len() ==> local_commit_index < (#[trigger] out@[i]).start
                        && out@[i].end <= target && out@[i].end - out@[i].start < batch_size,
            decreases (target as int) + 1 - next,
        {
            let span_end: u64 = next + (batch_size as u64) - 1;
            let end: u32 = if span_end >= (target as u64) {
                target
            } else {
                span_end as u32
            };
            let range = FetchRange { start: next as u32, end };
            self.pending.push(range);
            out.push(range);
            proof {
                assert(self.pending@ =~= old_pending + out@);
            }
            next = (end as u64) + 1;
        }
        proof {
            if local_commit_index + lag_threshold < target && old_pending.len() < max_inflight
                && (old_pending.len() == 0 || old_pending.last().end < target) {
                // The loop ran at least once: with room in the queue and
                // the span uncovered, its first test succeeds.
                assert(out@.len() > 0);
            }
        }
        out
    }

    /// Resolves one fetch: a successfully fetched range leaves the queue;
    /// a failed one stays queued for retry. Ranges are identified by their
    /// start, which is unique in a well-formed queue.
    pub fn fetch_completed(&mut self, committee: &Committee, start: u32, success: bool)
        requires
            committee.wf(),
            old(self).wf(*committee),
        ensures
            final(self).wf(*committee),
            final(self).monitor == old(self).monitor,
            !success ==> final(self).pending@ == old(self).pending@,
            success && (forall|i: int|
                0 <= i < old(self).pending@.len() ==> (#[trigger] old(self).pending@[i]).start
                    != start) ==> final(self).pending@ == old(self).pending@,
            success ==> forall|j: int|
                0 <= j < old(self).pending@.len() && (#[trigger] old(self).pending@[j]).start
                    == start ==> final(self).pending@ == old(self).pending@.remove(j),
    {
        if !success {
            return;
        }
        let ghost op = old(self).pending@;
        let mut i: usize = 0;
        while i < self.pending.len()
            invariant
                0 <= i <= self.pending@.len(),
                success,
                committee.wf(),
                *self == *old(self),
                old(self).monitor.wf(*committee),
                op == old(self).pending@,
                ranges_wf(op),
                forall|k: int| 0 <= k < i ==> (#[trigger] op[k]).start != start,
            decreases self.pending@.len() - i,
        {
            if self.pending[i].start == start {
                let ghost ii = i as int;
                self.pending.remove(i);
                proof {
                    op.remove_ensures(ii);
                    let np = self.pending@;
                    assert(np == op.remove(ii));
                    // The queue stays ordered and disjoint after removal.
                    assert forall|a: int, b: int| 0 <= a < b < np.len() implies (
                    #[trigger] np[a]).end < (#[trigger] np[b]).start by {
                        let a0 = if a < ii {
                            a
                        } else {
                            a + 1
                        };
                        let b0 = if b < ii {
                            b
                        } else {
                            b + 1
                        };
                        assert(np[a] == op[a0]);
                        assert(np[b] == op[b0]);
                    }
                    assert forall|a: int| 0 <= a < np.len() implies (#[trigger] np[a]).start
                        <= np[a].end by {
                        let a0 = if a < ii {
                            a
                        } else {
                            a + 1
                        };
                        assert(np[a] == op[a0]);
                    }
                    // Starts are distinct in an ordered disjoint queue, so
                    // the removed index is the only match.
                    assert forall|j: int|
                        0 <= j < op.len() && (#[trigger] op[j]).start == start implies np
                        == op.remove(j) by {
                        if j < ii {
                            assert(op[j].end < op[ii].start);
                        } else if j > ii {
                            assert(op[ii].end < op[j].start);
                        }
                    }
                }
                return;
            }
            i = i + 1;
        }
    }
}

} // verus!
