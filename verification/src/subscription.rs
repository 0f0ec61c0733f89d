//! Serving a block subscription: the catch-up prefix of own blocks the
//! peer has not received, and the per-item decision of the lag-tolerant
//! live stream that follows it.

use vstd::prelude::*;

use crate::fetch::views_of;
use crate::types::Block;

verus! {

/// The cached wire bytes of a run of blocks, in order.
pub open spec fn serialized_run(blocks: Seq<Block>) -> Seq<Seq<u8>>
    decreases blocks.len(),
{
    if blocks.len() == 0 {
        Seq::empty()
    } else {
        serialized_run(blocks.drop_last()).push(blocks.last().serialized@)
    }
}

/// The first round a subscriber with `last_received` still needs.
pub fn subscription_start_round(last_received: u32) -> (r: u32)
    requires
        last_received < u32::MAX,
    ensures
        r == last_received + 1,
{
    last_received + 1
}

/// Serializes the catch-up prefix of a subscription: the wire bytes of
/// the given own blocks, in the order they were produced.
pub fn catchup_blocks(blocks: &Vec<Block>) -> (r: Vec<Vec<u8>>)
    ensures
        views_of(r@) == serialized_run(blocks@),
{
    let mut out: Vec<Vec<u8>> = Vec::new();
    proof {
        assert(views_of(out@) =~= Seq::<Seq<u8>>::empty());
    }
    let mut i: usize = 0;
    while i < blocks.len()
        invariant
            0 <= i <= blocks@.len(),
            views_of(out@) == serialized_run(blocks@.take(i as int)),
        decreases blocks@.len() - i,
    {
        proof {
            assert(blocks@.take(i + 1).drop_last() =~= blocks@.take(i as int));
            assert(blocks@.take(i + 1).last() == blocks@[i as int]);
        }
        let bytes = crate::fetch::copy_bytes(&blocks[i].serialized);
        let ghost before = views_of(out@);
        out.push(bytes);
        proof {
            assert(views_of(out@) =~= before.push(bytes@));
        }
        i = i + 1;
    }
    proof {
        assert(blocks@.take(blocks@.len() as int) =~= blocks@);
    }
    out
}

/// What one receive on the underlying broadcast channel produced.
pub enum RecvOutcome {
    /// A broadcast block.
    Item(Block),
    /// The receiver fell behind and `0` or more items were dropped; the
    /// count is reported by the channel.
    Lagged(u64),
    /// No producer remains.
    Closed,
}

/// What the stream does with one receive outcome.
pub enum PollDecision {
    /// Yield the block to the subscriber.
    Yield(Block),
    /// Log and poll again: a lagging subscriber keeps its subscription
    /// and continues with the next available item.
    Retry,
    /// End the stream.
    Terminate,
}

/// The per-item policy of the lag-tolerant broadcast stream: items are
/// yielded, lag is tolerated by retrying, and only channel closure ends
/// the stream.
pub fn broadcast_poll_decision(outcome: RecvOutcome) -> (d: PollDecision)
    ensures
        (outcome matches RecvOutcome::Item(b) ==> d == PollDecision::Yield(b)),
        (outcome matches RecvOutcome::Lagged(n) ==> d == PollDecision::Retry),
        (outcome matches RecvOutcome::Closed ==> d == PollDecision::Terminate),
{
    match outcome {
        RecvOutcome::Item(b) => PollDecision::Yield(b),
        RecvOutcome::Lagged(_) => PollDecision::Retry,
        RecvOutcome::Closed => PollDecision::Terminate,
    }
}

} // verus!
