use consensus_core::subscription::{
    broadcast_poll_decision, catchup_blocks, subscription_start_round, PollDecision, RecvOutcome,
};
use consensus_core::types::Block;

fn own_block(round: u32, bytes: Vec<u8>) -> Block {
    Block {
        author: 0,
        round,
        timestamp_ms: 0,
        ancestors: Vec::new(),
        commit_votes: Vec::new(),
        serialized: bytes,
    }
}

#[test]
fn subscription_starts_after_last_received() {
    assert_eq!(subscription_start_round(5), 6);
    assert_eq!(subscription_start_round(0), 1);
}

#[test]
fn subscriber_gets_catchup_then_live_blocks_in_order() {
    // The peer last received round 5; rounds 6 and 7 were produced before
    // the subscription, round 8 arrives on the broadcast afterwards.
    let cached = vec![own_block(6, vec![6]), own_block(7, vec![7])];
    let mut received: Vec<Vec<u8>> = catchup_blocks(&cached);
    match broadcast_poll_decision(RecvOutcome::Item(own_block(8, vec![8]))) {
        PollDecision::Yield(b) => received.push(b.serialized),
        _ => panic!("a broadcast item must be yielded"),
    }
    assert_eq!(received, vec![vec![6], vec![7], vec![8]]);
}

#[test]
fn lag_is_tolerated_and_the_stream_continues() {
    // A buffer overrun is retried, not surfaced; the next item flows.
    assert!(matches!(broadcast_poll_decision(RecvOutcome::Lagged(3)), PollDecision::Retry));
    match broadcast_poll_decision(RecvOutcome::Item(own_block(9, vec![9]))) {
        PollDecision::Yield(b) => assert_eq!(b.round, 9),
        _ => panic!("the stream must keep yielding after lag"),
    }
}

#[test]
fn closure_terminates_the_stream() {
    assert!(matches!(broadcast_poll_decision(RecvOutcome::Closed), PollDecision::Terminate));
}
