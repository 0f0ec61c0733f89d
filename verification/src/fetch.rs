//! Serving fetch requests: validation of block-fetch requests, selection
//! of bonus ancestors for a requester that is behind, assembly of the
//! served bytes, and certification of a served commit range against the
//! quorum threshold.

use vstd::prelude::*;

use crate::committee::Committee;
use crate::stake_aggregator::{marked_stake, StakeAggregator};
use crate::types::{Block, BlockRef, Commit, ConsensusError};
use crate::GENESIS_ROUND;

verus! {

/// At most this many ancestor blocks are added to a fetch response beyond
/// the blocks the requester asked for.
pub const MAX_ADDITIONAL_BLOCKS: usize = 10;

/// The first invalid reference in a fetch request, scanned in order: an
/// author outside the committee, or a reference to the synthetic genesis
/// round.
pub open spec fn first_ref_error(refs: Seq<BlockRef>, committee_size: usize) -> Option<
    ConsensusError,
>
    decreases refs.len(),
{
    if refs.len() == 0 {
        None
    } else {
        let r0 = refs[0];
        if r0.author as int >= committee_size {
            Some(ConsensusError::InvalidAuthorityIndex { index: r0.author, max: committee_size })
        } else if r0.round == GENESIS_ROUND {
            Some(ConsensusError::UnexpectedGenesisBlockRequested)
        } else {
            first_ref_error(refs.drop_first(), committee_size)
        }
    }
}

/// The verdict on a block-fetch request, checks in order: the number of
/// references against the per-request cap, a non-empty accepted-rounds
/// vector against the committee size, then each reference in order.
pub open spec fn fetch_request_verdict(
    refs: Seq<BlockRef>,
    rounds: Seq<u32>,
    committee_size: usize,
    max_blocks_per_fetch: usize,
    peer: u32,
) -> Result<(), ConsensusError> {
    if refs.len() > max_blocks_per_fetch {
        Err(ConsensusError::TooManyFetchBlocksRequested(peer))
    } else if rounds.len() != 0 && rounds.len() != committee_size {
        Err(
            ConsensusError::InvalidSizeOfHighestAcceptedRounds(
                rounds.len() as usize,
                committee_size,
            ),
        )
    } else {
        match first_ref_error(refs, committee_size) {
            Some(e) => Err(e),
            None => Ok(()),
        }
    }
}

/// Validates a block-fetch request from `peer`, returning exactly the
/// verdict of `fetch_request_verdict`.
pub fn validate_fetch_blocks_request(
    block_refs: &Vec<BlockRef>,
    highest_accepted_rounds: &Vec<u32>,
    committee_size: usize,
    max_blocks_per_fetch: usize,
    peer: u32,
) -> (r: Result<(), ConsensusError>)
    ensures
        r == fetch_request_verdict(
            block_refs@,
            highest_accepted_rounds@,
            committee_size,
            max_blocks_per_fetch,
            peer,
        ),
{
    if block_refs.len() > max_blocks_per_fetch {
        return Err(ConsensusError::TooManyFetchBlocksRequested(peer));
    }
    if highest_accepted_rounds.len() != 0 && highest_accepted_rounds.len() != committee_size {
        return Err(
            ConsensusError::InvalidSizeOfHighestAcceptedRounds(
                highest_accepted_rounds.len(),
                committee_size,
            ),
        );
    }
    proof {
        assert(block_refs@.skip(0) =~= block_refs@);
    }
    let mut i: usize = 0;
    while i < block_refs.len()
        invariant
            0 <= i <= block_refs@.len(),
            block_refs@.len() <= max_blocks_per_fetch,
            highest_accepted_rounds@.len() == 0 || highest_accepted_rounds@.len()
                == committee_size,
            first_ref_error(block_refs@, committee_size) == first_ref_error(
                block_refs@.skip(i as int),
                committee_size,
            ),
        decreases block_refs@.len() - i,
    {
        let r = block_refs[i];
        proof {
            let tail = block_refs@.skip(i as int);
            assert(tail.len() > 0);
            assert(tail[0] == block_refs@[i as int]);
            assert(tail.drop_first() =~= block_refs@.skip(i + 1));
            assert(first_ref_error(tail, committee_size) == if tail[0].author as int
                >= committee_size {
                Some(
                    ConsensusError::InvalidAuthorityIndex {
                        index: tail[0].author,
                        max: committee_size,
                    },
                )
            } else if tail[0].round == GENESIS_ROUND {
                Some(ConsensusError::UnexpectedGenesisBlockRequested)
            } else {
                first_ref_error(tail.drop_first(), committee_size)
            });
        }
        if r.author as usize >= committee_size {
            return Err(ConsensusError::InvalidAuthorityIndex { index: r.author, max: committee_size });
        }
        if r.round == GENESIS_ROUND {
            return Err(ConsensusError::UnexpectedGenesisBlockRequested);
        }
        i = i + 1;
    }
    proof {
        assert(block_refs@.skip(block_refs@.len() as int) =~= Seq::<BlockRef>::empty());
        assert(first_ref_error(Seq::<BlockRef>::empty(), committee_size) is None);
    }
    Ok(())
}

/// Whether the requester, by its reported accepted rounds, is missing the
/// ancestor `a`.
pub open spec fn wanted_ancestor(rounds: Seq<u32>, a: BlockRef) -> bool {
    rounds[a.author as int] < a.round
}

/// The ancestors of one block that the requester is missing, in block order.
pub open spec fn filtered_ancestors(ancs: Seq<BlockRef>, rounds: Seq<u32>) -> Seq<BlockRef>
    decreases ancs.len(),
{
    if ancs.len() == 0 {
        Seq::empty()
    } else {
        filtered_ancestors(ancs.drop_last(), rounds) + if wanted_ancestor(rounds, ancs.last()) {
            seq![ancs.last()]
        } else {
            Seq::empty()
        }
    }
}

/// The missing ancestors of all served blocks, blocks in response order.
pub open spec fn blocks_wanted_ancestors(blocks: Seq<Option<Block>>, rounds: Seq<u32>) -> Seq<
    BlockRef,
>
    decreases blocks.len(),
{
    if blocks.len() == 0 {
        Seq::empty()
    } else {
        blocks_wanted_ancestors(blocks.drop_last(), rounds) + match blocks.last() {
            Some(b) => filtered_ancestors(b.ancestors@, rounds),
            None => Seq::empty(),
        }
    }
}

/// A prefix of at most `n` elements.
pub open spec fn take_at_most(s: Seq<BlockRef>, n: int) -> Seq<BlockRef> {
    if s.len() <= n {
        s
    } else {
        s.take(n)
    }
}

/// Every ancestor of a present block names a committee seat the rounds
/// vector covers.
pub open spec fn ancestors_within(blocks: Seq<Option<Block>>, rounds: Seq<u32>) -> bool {
    forall|i: int, k: int|
        0 <= i < blocks.len() && blocks[i] is Some && 0 <= k
            < blocks[i].unwrap().ancestors@.len() ==> (
        #[trigger] blocks[i].unwrap().ancestors@[k].author as int) < rounds.len()
}

/// Selects, from the ancestors of the blocks about to be served, those
/// whose round exceeds what the requester reported as accepted for that
/// ancestor's author — at most `MAX_ADDITIONAL_BLOCKS` of them, in order.
pub fn select_additional_ancestors(blocks: &Vec<Option<Block>>, rounds: &Vec<u32>) -> (r: Vec<
    BlockRef,
>)
    requires
        ancestors_within(blocks@, rounds@),
    ensures
        r@ == take_at_most(
            blocks_wanted_ancestors(blocks@, rounds@),
            MAX_ADDITIONAL_BLOCKS as int,
        ),
{
    let mut out: Vec<BlockRef> = Vec::new();
    let mut i: usize = 0;
    while i < blocks.len()
        invariant
            0 <= i <= blocks@.len(),
            ancestors_within(blocks@, rounds@),
            out@ == blocks_wanted_ancestors(blocks@.take(i as int), rounds@),
        decreases blocks@.len() - i,
    {
        proof {
            assert(blocks@.take(i + 1).drop_last() =~= blocks@.take(i as int));
            assert(blocks@.take(i + 1).last() == blocks@[i as int]);
        }
        match &blocks[i] {
            Some(b) => {
                let ghost base = out@;
                let mut k: usize = 0;
                while k < b.ancestors.len()
                    invariant
                        0 <= k <= b.ancestors@.len(),
                        forall|t: int|
                            0 <= t < b.ancestors@.len() ==> (
                            #[trigger] b.ancestors@[t].author as int) < rounds@.len(),
                        out@ == base + filtered_ancestors(b.ancestors@.take(k as int), rounds@),
                    decreases b.ancestors@.len() - k,
                {
                    proof {
                        assert(b.ancestors@.take(k + 1).drop_last() =~= b.ancestors@.take(
                            k as int,
                        ));
                        assert(b.ancestors@.take(k + 1).last() == b.ancestors@[k as int]);
                    }
                    let a = b.ancestors[k];
                    if rounds[a.author as usize] < a.round {
                        out.push(a);
                        proof {
                            assert(out@ =~= base + filtered_ancestors(
                                b.ancestors@.take(k + 1),
                                rounds@,
                            ));
                        }
                    } else {
                        proof {
                            assert(out@ =~= base + filtered_ancestors(
                                b.ancestors@.take(k + 1),
                                rounds@,
                            ));
                        }
                    }
                    k = k + 1;
                }
                proof {
                    assert(b.ancestors@.take(b.ancestors@.len() as int) =~= b.ancestors@);
                }
            },
            None => {
                proof {
                    assert(out@ =~= blocks_wanted_ancestors(blocks@.take(i + 1), rounds@));
                }
            },
        }
        i = i + 1;
    }
    proof {
        assert(blocks@.take(blocks@.len() as int) =~= blocks@);
    }
    out.truncate(MAX_ADDITIONAL_BLOCKS);
    proof {
        let all = blocks_wanted_ancestors(blocks@, rounds@);
        if all.len() > MAX_ADDITIONAL_BLOCKS as int {
            assert(out@ =~= take_at_most(all, MAX_ADDITIONAL_BLOCKS as int));
        }
    }
    out
}

/// The views of a sequence of byte vectors.
pub open spec fn views_of(s: Seq<Vec<u8>>) -> Seq<Seq<u8>> {
    s.map_values(|v: Vec<u8>| v@)
}

/// The cached wire bytes of the present blocks, in order.
pub open spec fn serialized_blocks(blocks: Seq<Option<Block>>) -> Seq<Seq<u8>>
    decreases blocks.len(),
{
    if blocks.len() == 0 {
        Seq::empty()
    } else {
        serialized_blocks(blocks.drop_last()) + match blocks.last() {
            Some(b) => seq![b.serialized@],
            None => Seq::empty(),
        }
    }
}

/// A copy of a byte vector.
pub(crate) fn copy_bytes(v: &Vec<u8>) -> (r: Vec<u8>)
    ensures
        r@ == v@,
{
    let mut r: Vec<u8> = Vec::new();
    let mut i: usize = 0;
    while i < v.len()
        invariant
            0 <= i <= v@.len(),
            r@ == v@.take(i as int),
        decreases v@.len() - i,
    {
        r.push(v[i]);
        proof {
            assert(r@ =~= v@.take(i + 1));
        }
        i = i + 1;
    }
    proof {
        assert(v@.take(v@.len() as int) =~= v@);
    }
    r
}

/// Appends the wire bytes of the present blocks to `out`.
fn push_serialized(out: &mut Vec<Vec<u8>>, blocks: &Vec<Option<Block>>)
    ensures
        views_of(final(out)@) == views_of(old(out)@) + serialized_blocks(blocks@),
{
    let mut i: usize = 0;
    let ghost base = views_of(out@);
    while i < blocks.len()
        invariant
            0 <= i <= blocks@.len(),
            views_of(out@) == base + serialized_blocks(blocks@.take(i as int)),
        decreases blocks@.len() - i,
    {
        proof {
            assert(blocks@.take(i + 1).drop_last() =~= blocks@.take(i as int));
            assert(blocks@.take(i + 1).last() == blocks@[i as int]);
        }
        match &blocks[i] {
            Some(b) => {
                proof {
                    assert(blocks@[i as int] == Some(*b));
                }
                let bytes = copy_bytes(&b.serialized);
                let ghost before = views_of(out@);
                out.push(bytes);
                proof {
                    assert(views_of(out@) =~= before.push(bytes@));
                    assert(serialized_blocks(blocks@.take(i + 1)) =~= serialized_blocks(
                        blocks@.take(i as int),
                    ) + seq![b.serialized@]);
                    assert(views_of(out@) =~= base + serialized_blocks(blocks@.take(i + 1)));
                }
            },
            None => {
                proof {
                    assert(serialized_blocks(blocks@.take(i + 1)) =~= serialized_blocks(
                        blocks@.take(i as int),
                    ));
                    assert(views_of(out@) =~= base + serialized_blocks(blocks@.take(i + 1)));
                }
            },
        }
        i = i + 1;
    }
    proof {
        assert(blocks@.take(blocks@.len() as int) =~= blocks@);
    }
}

/// Assembles a block-fetch response: the wire bytes of the requested
/// blocks that were found, then of the bonus ancestor blocks, duplicates
/// permitted (the requester de-duplicates).
pub fn assemble_fetched_blocks(blocks: &Vec<Option<Block>>, ancestor_blocks: &Vec<Option<Block>>)
    -> (r: Vec<Vec<u8>>)
    ensures
        views_of(r@) == serialized_blocks(blocks@) + serialized_blocks(ancestor_blocks@),
{
    let mut out: Vec<Vec<u8>> = Vec::new();
    proof {
        assert(views_of(out@) =~= Seq::<Seq<u8>>::empty());
    }
    push_serialized(&mut out, blocks);
    push_serialized(&mut out, ancestor_blocks);
    proof {
        assert(Seq::<Seq<u8>>::empty() + serialized_blocks(blocks@) =~= serialized_blocks(
            blocks@,
        ));
    }
    out
}

/// Clamps a requested inclusive commit range `[start, end]` to an
/// exclusive end bounded by the commit-sync batch size, so the response
/// size is bounded whatever the peer asked for.
pub fn clamp_commit_range(start: u32, end: u32, batch_size: u32) -> (exclusive_end: u32)
    requires
        start <= end,
        end < u32::MAX,
        batch_size >= 1,
    ensures
        exclusive_end as int == if end + 1 <= start + batch_size {
            end + 1
        } else {
            start + batch_size as int
        },
        start < exclusive_end,
        exclusive_end - start <= batch_size,
{
    let a: u64 = end as u64 + 1;
    let b: u64 = start as u64 + batch_size as u64;
    let m: u64 = if a <= b {
        a
    } else {
        b
    };
    m as u32
}

/// The authorities voting in `votes`, marked one per committee seat.
pub open spec fn author_marks(votes: Seq<BlockRef>, size: int) -> Seq<bool> {
    Seq::new(
        size as nat,
        |i: int| exists|k: int| 0 <= k < votes.len() && votes[k].author as int == i,
    )
}

/// The stake of the distinct authorities voting in `votes`.
pub open spec fn votes_stake(votes: Seq<BlockRef>, committee: Committee) -> int {
    marked_stake(author_marks(votes, committee.spec_size()), committee.spec_stakes())
}

/// Whether the votes reach the committee's quorum threshold.
pub open spec fn vote_quorum(votes: Seq<BlockRef>, committee: Committee) -> bool {
    votes_stake(votes, committee) >= committee.spec_quorum_threshold()
}

/// Every vote names a committee seat.
pub open spec fn votes_within(votes: Seq<BlockRef>, committee: Committee) -> bool {
    forall|k: int|
        0 <= k < votes.len() ==> (#[trigger] votes[k].author as int) < committee.spec_size()
}

/// Tallies the stake of the distinct authors among `votes`.
pub fn tally_votes_stake(votes: &Vec<BlockRef>, committee: &Committee) -> (s: u64)
    requires
        committee.wf(),
        votes_within(votes@, *committee),
    ensures
        s as int == votes_stake(votes@, *committee),
{
    let ghost size = committee.spec_size();
    let mut agg = StakeAggregator::new(committee);
    proof {
        assert(agg.spec_voted() =~= author_marks(votes@.take(0), size));
    }
    let mut k: usize = 0;
    while k < votes.len()
        invariant
            0 <= k <= votes@.len(),
            committee.wf(),
            votes_within(votes@, *committee),
            size == committee.spec_size(),
            agg.wf(*committee),
            agg.spec_voted() == author_marks(votes@.take(k as int), size),
        decreases votes@.len() - k,
    {
        let a = votes[k].author;
        agg.add(a, committee);
        proof {
            assert forall|i: int| 0 <= i < size implies author_marks(votes@.take(k as int), size)
                .update(a as int, true)[i] == author_marks(votes@.take(k + 1), size)[i] by {
                if i == a as int {
                    assert(votes@.take(k + 1)[k as int].author as int == i);
                } else {
                    if author_marks(votes@.take(k + 1), size)[i] {
                        let w = choose|w: int|
                            0 <= w < votes@.take(k + 1).len() && (#[trigger] votes@.take(
                                k + 1,
                            )[w].author as int) == i;
                        assert(votes@.take(k as int)[w] == votes@.take(k + 1)[w]);
                    }
                }
            }
            assert(agg.spec_voted() =~= author_marks(votes@.take(k + 1), size));
        }
        k = k + 1;
    }
    proof {
        assert(votes@.take(votes@.len() as int) =~= votes@);
        assert(agg.spec_voted() =~= author_marks(votes@, size));
    }
    agg.stake
}

/// Certifies the tail of a scanned commit range: walks backward from the
/// last commit, drops commits whose recorded votes do not reach quorum,
/// and returns the surviving prefix together with the votes certifying
/// its last commit. When no commit in the range reaches quorum, both
/// results are empty.
pub fn certify_commits(commits: Vec<Commit>, votes: &Vec<Vec<BlockRef>>, committee: &Committee)
    -> (r: (Vec<Commit>, Vec<BlockRef>))
    requires
        committee.wf(),
        votes@.len() == commits@.len(),
        forall|i: int| 0 <= i < votes@.len() ==> votes_within(#[trigger] votes@[i]@, *committee),
    ensures
        r.0@.len() <= commits@.len(),
        r.0@ == commits@.take(r.0@.len() as int),
        r.0@.len() > 0 ==> vote_quorum(votes@[r.0@.len() - 1]@, *committee) && r.1@ == votes@[r.0@.len()
            - 1]@,
        forall|i: int|
            r.0@.len() <= i < commits@.len() ==> !vote_quorum(#[trigger] votes@[i]@, *committee),
        r.0@.len() == 0 ==> r.1@.len() == 0,
{
    let mut commits = commits;
    let quorum = committee.quorum_threshold();
    let mut k: usize = commits.len();
    let mut found = false;
    while k > 0 && !found
        invariant
            0 <= k <= commits@.len(),
            votes@.len() == commits@.len(),
            committee.wf(),
            quorum as int == committee.spec_quorum_threshold(),
            forall|i: int| 0 <= i < votes@.len() ==> votes_within(#[trigger] votes@[i]@, *committee),
            forall|i: int|
                k <= i < commits@.len() ==> !vote_quorum(#[trigger] votes@[i]@, *committee),
            found ==> k > 0 && vote_quorum(votes@[k as int - 1]@, *committee),
        decreases k + if found {
            0int
        } else {
            1int
        },
    {
        let s = tally_votes_stake(&votes[k - 1], committee);
        if s >= quorum {
            found = true;
        } else {
            k = k - 1;
        }
    }
    let certifiers: Vec<BlockRef> = if found {
        let src = &votes[k - 1];
        let mut c: Vec<BlockRef> = Vec::new();
        let mut j: usize = 0;
        while j < src.len()
            invariant
                0 <= j <= src@.len(),
                c@ == src@.take(j as int),
            decreases src@.len() - j,
        {
            c.push(src[j]);
            proof {
                assert(c@ =~= src@.take(j + 1));
            }
            j = j + 1;
        }
        proof {
            assert(src@.take(src@.len() as int) =~= src@);
        }
        c
    } else {
        Vec::new()
    };
    commits.truncate(k);
    (commits, certifiers)
}

} // verus!
