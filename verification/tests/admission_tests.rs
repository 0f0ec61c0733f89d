use consensus_core::admission::{
    check_author, is_commit_lagging, observe_votes_then_check_lag, timing_decision, TimingDecision,
};
use consensus_core::committee::Committee;
use consensus_core::monitor::CommitVoteMonitor;
use consensus_core::types::{CommitRef, ConsensusError};

fn committee4() -> Committee {
    Committee::new(vec![1, 1, 1, 1]).unwrap()
}

#[test]
fn author_mismatch_is_rejected_before_anything_else() {
    let r = check_author(2, 3);
    assert_eq!(r, Err(ConsensusError::UnexpectedAuthority(2, 3)));
}

#[test]
fn author_match_is_accepted() {
    assert_eq!(check_author(1, 1), Ok(()));
}

#[test]
fn past_or_present_timestamp_never_delays() {
    assert_eq!(timing_decision(1000, 1000, 500), TimingDecision::Proceed { delay_ms: 0 });
    assert_eq!(timing_decision(900, 1000, 500), TimingDecision::Proceed { delay_ms: 0 });
    assert_eq!(timing_decision(0, 1000, 0), TimingDecision::Proceed { delay_ms: 0 });
}

#[test]
fn drift_within_bound_delays_by_exactly_the_drift() {
    assert_eq!(timing_decision(1300, 1000, 500), TimingDecision::Proceed { delay_ms: 300 });
    assert_eq!(timing_decision(1500, 1000, 500), TimingDecision::Proceed { delay_ms: 500 });
    assert_eq!(timing_decision(1001, 1000, 500), TimingDecision::Proceed { delay_ms: 1 });
}

#[test]
fn drift_beyond_bound_rejects_immediately() {
    assert_eq!(timing_decision(1501, 1000, 500), TimingDecision::RejectFuture);
    assert_eq!(timing_decision(u64::MAX, 0, 500), TimingDecision::RejectFuture);
}

#[test]
fn commit_lag_threshold_is_exact() {
    // last + 5 * batch < quorum
    assert!(is_commit_lagging(0, 2, 11));
    assert!(!is_commit_lagging(0, 2, 10));
    assert!(!is_commit_lagging(5, 2, 15));
    assert!(is_commit_lagging(5, 2, 16));
    // widened arithmetic: no overflow on extreme inputs
    assert!(!is_commit_lagging(u32::MAX, u32::MAX, u32::MAX));
}

#[test]
fn lag_check_sees_the_votes_of_the_checked_block() {
    let committee = committee4();
    let mut monitor = CommitVoteMonitor::new(&committee);
    // Two peers have already voted for commit 100.
    monitor.observe(0, &vec![CommitRef { index: 100, digest: 7 }]);
    monitor.observe(1, &vec![CommitRef { index: 100, digest: 7 }]);
    // Quorum (3 of stake 4) is not reached yet.
    assert_eq!(monitor.quorum_commit_index(&committee), 0);
    // The third vote arrives in the block being admitted: the verdict is
    // computed after recording it, so the block is rejected as lagging.
    let votes = vec![CommitRef { index: 100, digest: 7 }];
    let lagging = observe_votes_then_check_lag(&mut monitor, &committee, 2, &votes, 0, 2);
    assert!(lagging);
    assert_eq!(monitor.quorum_commit_index(&committee), 100);
}

#[test]
fn lag_check_passes_when_local_commit_is_close() {
    let committee = committee4();
    let mut monitor = CommitVoteMonitor::new(&committee);
    for peer in 0..3u32 {
        monitor.observe(peer, &vec![CommitRef { index: 9, digest: 1 }]);
    }
    // quorum index 9, local 0, batch 2: 0 + 10 >= 9, not lagging.
    let lagging = observe_votes_then_check_lag(
        &mut monitor,
        &committee,
        3,
        &vec![CommitRef { index: 9, digest: 1 }],
        0,
        2,
    );
    assert!(!lagging);
}
