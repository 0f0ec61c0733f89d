//! The decision chain for admitting a block sent by a peer: author check,
//! forward-time-drift handling, and the commit-lag check. The service runs
//! these in order around its unverified edges (deserialization, signature
//! verification, the drift wait and dispatch).

use vstd::prelude::*;

use crate::committee::Committee;
use crate::monitor::{observe_all, spec_quorum_commit_index, CommitVoteMonitor};
use crate::types::{CommitRef, ConsensusError};

verus! {

/// The commit-lag check rejects blocks when the local commit index trails
/// the quorum commit index by more than this many commit-sync batches.
/// It stays above one batch so that a single sync round catches up fully
/// and rejections do not thrash with resynchronization.
pub const COMMIT_LAG_MULTIPLIER: u32 = 5;

/// What to do with a block's timestamp relative to local time.
#[derive(Clone, Copy, Debug, PartialEq, Eq, Structural)]
pub enum TimingDecision {
    /// The timestamp exceeds local time by more than the allowed drift:
    /// reject outright.
    RejectFuture,
    /// Admit after waiting `delay_ms` (zero when the timestamp is not in
    /// the future).
    Proceed { delay_ms: u64 },
}

/// Blocks submitted through the send-block path must come from their own
/// author: accept exactly when the claimed author is the sending peer.
pub fn check_author(author: u32, peer: u32) -> (r: Result<(), ConsensusError>)
    ensures
        author == peer <==> r is Ok,
        author != peer ==> r == Result::<(), ConsensusError>::Err(
            ConsensusError::UnexpectedAuthority(author, peer),
        ),
{
    if author == peer {
        Ok(())
    } else {
        Err(ConsensusError::UnexpectedAuthority(author, peer))
    }
}

/// Classifies a block timestamp against local time: not in the future is
/// admitted at once; within the allowed drift is admitted after exactly
/// the drift; beyond the allowed drift is rejected without waiting.
pub fn timing_decision(timestamp_ms: u64, now_ms: u64, max_drift_ms: u64) -> (d: TimingDecision)
    ensures
        timestamp_ms <= now_ms ==> d == (TimingDecision::Proceed { delay_ms: 0u64 }),
        now_ms < timestamp_ms && timestamp_ms - now_ms <= max_drift_ms ==> d
            == (TimingDecision::Proceed { delay_ms: (timestamp_ms - now_ms) as u64 }),
        timestamp_ms - now_ms > max_drift_ms ==> d == TimingDecision::RejectFuture,
{
    if timestamp_ms <= now_ms {
        TimingDecision::Proceed { delay_ms: 0 }
    } else {
        let drift = timestamp_ms - now_ms;
        if drift > max_drift_ms {
            TimingDecision::RejectFuture
        } else {
            TimingDecision::Proceed { delay_ms: drift }
        }
    }
}

/// Whether the local commit index trails the quorum commit index by more
/// than `COMMIT_LAG_MULTIPLIER` commit-sync batches.
pub open spec fn commit_lagging(
    last_commit_index: u32,
    batch_size: u32,
    quorum_commit_index: u32,
) -> bool {
    last_commit_index + COMMIT_LAG_MULTIPLIER * batch_size < quorum_commit_index
}

/// Executable form of the commit-lag test; the arithmetic is widened so
/// no input can overflow it.
pub fn is_commit_lagging(last_commit_index: u32, batch_size: u32, quorum_commit_index: u32) -> (r:
    bool)
    ensures
        r == commit_lagging(last_commit_index, batch_size, quorum_commit_index),
{
    let mult: u64 = COMMIT_LAG_MULTIPLIER as u64;
    (last_commit_index as u64) + mult * (batch_size as u64) < (quorum_commit_index as u64)
}

/// Records a block's commit votes and then evaluates the commit-lag
/// check against the quorum commit index that results.
///
/// The order is the point: the votes enter the monitor first, so a
/// rejected block still advances the observed quorum frontier and the
/// lag verdict is computed from the monitor state that includes them.
pub fn observe_votes_then_check_lag(
    monitor: &mut CommitVoteMonitor,
    committee: &Committee,
    author: u32,
    votes: &Vec<CommitRef>,
    last_commit_index: u32,
    batch_size: u32,
) -> (lagging: bool)
    requires
        committee.wf(),
        old(monitor).wf(*committee),
        (author as int) < committee.spec_size(),
    ensures
        final(monitor).wf(*committee),
        final(monitor).highest@ == observe_all(old(monitor).highest@, author as int, votes@),
        lagging == commit_lagging(
            last_commit_index,
            batch_size,
            spec_quorum_commit_index(final(monitor).highest@, *committee),
        ),
{
    monitor.observe(author, votes);
    proof {
        crate::monitor::lemma_observe_all_monotone(
            old(monitor).highest@,
            author as int,
            votes@,
        );
    }
    let quorum_commit_index = monitor.quorum_commit_index(committee);
    is_commit_lagging(last_commit_index, batch_size, quorum_commit_index)
}

} // verus!
