use consensus_core::committee::Committee;
use consensus_core::monitor::CommitVoteMonitor;
use consensus_core::stake_aggregator::StakeAggregator;
use consensus_core::types::CommitRef;

fn committee4() -> Committee {
    Committee::new(vec![1, 1, 1, 1]).unwrap()
}

fn cref(index: u32, digest: u64) -> CommitRef {
    CommitRef { index, digest }
}

#[test]
fn committee_thresholds() {
    let c = committee4();
    assert_eq!(c.size(), 4);
    assert_eq!(c.total_stake(), 4);
    assert_eq!(c.quorum_threshold(), 3);
    assert_eq!(c.validity_threshold(), 2);
    let weighted = Committee::new(vec![10, 20, 30]).unwrap();
    assert_eq!(weighted.quorum_threshold(), 41);
    assert_eq!(weighted.validity_threshold(), 21);
    assert!(Committee::new(Vec::new()).is_none());
    assert!(Committee::new(vec![u64::MAX]).is_none());
}

#[test]
fn aggregator_counts_each_authority_once() {
    let c = committee4();
    let mut agg = StakeAggregator::new(&c);
    assert!(agg.add(1, &c));
    assert!(!agg.add(1, &c));
    assert!(!agg.reached(2));
    assert!(agg.add(3, &c));
    assert!(agg.reached(2));
    assert!(!agg.reached(3));
}

#[test]
fn fresh_monitor_reports_genesis() {
    let c = committee4();
    let m = CommitVoteMonitor::new(&c);
    assert_eq!(m.quorum_commit_index(&c), 0);
}

#[test]
fn quorum_commit_index_needs_quorum_stake() {
    let c = committee4();
    let mut m = CommitVoteMonitor::new(&c);
    m.observe(0, &vec![cref(50, 1)]);
    m.observe(1, &vec![cref(50, 1)]);
    // Two of four unit stakes: below the quorum threshold of 3.
    assert_eq!(m.quorum_commit_index(&c), 0);
    m.observe(2, &vec![cref(50, 1)]);
    assert_eq!(m.quorum_commit_index(&c), 50);
}

#[test]
fn observation_keeps_the_highest_vote_per_peer() {
    let c = committee4();
    let mut m = CommitVoteMonitor::new(&c);
    m.observe(0, &vec![cref(5, 9)]);
    // A lower vote from the same peer changes nothing.
    m.observe(0, &vec![cref(3, 1)]);
    // With threshold 1, the frontier is the highest tracked entry.
    let f = m.quorum_frontier(&c, 1).unwrap();
    assert_eq!(f, cref(5, 9));
}

#[test]
fn frontier_is_monotone_whatever_the_arrival_order() {
    let c = committee4();
    let threshold = c.validity_threshold();
    // The same observations in two different arrival orders.
    let orders: [[(u32, u32); 4]; 2] = [
        [(0, 10), (1, 8), (1, 12), (2, 9)],
        [(1, 8), (2, 9), (0, 10), (1, 12)],
    ];
    for order in orders {
        let mut m = CommitVoteMonitor::new(&c);
        let mut last_index = 0u32;
        for (peer, index) in order {
            m.observe(peer, &vec![cref(index, index as u64)]);
            let front = m.quorum_frontier(&c, threshold).map(|r| r.index).unwrap_or(0);
            assert!(front >= last_index);
            last_index = front;
        }
        // Final state is order-independent: highest entries [10, 12, 9, 0];
        // two stakes sit at or above (10, 10), none higher has two.
        assert_eq!(last_index, 10);
    }
}
