use consensus_core::committee::Committee;
use consensus_core::fetch::{
    assemble_fetched_blocks, certify_commits, clamp_commit_range, select_additional_ancestors,
    tally_votes_stake, validate_fetch_blocks_request,
};
use consensus_core::types::{Block, BlockRef, Commit, ConsensusError};

fn committee4() -> Committee {
    Committee::new(vec![1, 1, 1, 1]).unwrap()
}

fn bref(author: u32, round: u32, digest: u64) -> BlockRef {
    BlockRef { author, round, digest }
}

fn block(author: u32, round: u32, ancestors: Vec<BlockRef>, bytes: Vec<u8>) -> Block {
    Block {
        author,
        round,
        timestamp_ms: 0,
        ancestors,
        commit_votes: Vec::new(),
        serialized: bytes,
    }
}

#[test]
fn too_many_refs_always_rejects() {
    // Over the cap, even though every single ref is also invalid.
    let refs = vec![bref(9, 0, 1), bref(9, 0, 2), bref(9, 0, 3)];
    let r = validate_fetch_blocks_request(&refs, &Vec::new(), 4, 2, 7);
    assert_eq!(r, Err(ConsensusError::TooManyFetchBlocksRequested(7)));
}

#[test]
fn wrong_size_rounds_vector_always_rejects() {
    // Non-empty rounds vector of the wrong length, refs themselves valid.
    let refs = vec![bref(0, 5, 1)];
    let rounds = vec![4, 4];
    let r = validate_fetch_blocks_request(&refs, &rounds, 4, 10, 7);
    assert_eq!(r, Err(ConsensusError::InvalidSizeOfHighestAcceptedRounds(2, 4)));
}

#[test]
fn invalid_author_and_genesis_refs_reject_in_order() {
    let r = validate_fetch_blocks_request(&vec![bref(9, 5, 1)], &Vec::new(), 4, 10, 7);
    assert_eq!(r, Err(ConsensusError::InvalidAuthorityIndex { index: 9, max: 4 }));
    let r = validate_fetch_blocks_request(&vec![bref(1, 0, 1)], &Vec::new(), 4, 10, 7);
    assert_eq!(r, Err(ConsensusError::UnexpectedGenesisBlockRequested));
    // The first offending ref decides.
    let r = validate_fetch_blocks_request(
        &vec![bref(1, 3, 1), bref(1, 0, 2), bref(9, 5, 3)],
        &Vec::new(),
        4,
        10,
        7,
    );
    assert_eq!(r, Err(ConsensusError::UnexpectedGenesisBlockRequested));
}

#[test]
fn valid_request_is_accepted() {
    let refs = vec![bref(0, 1, 1), bref(3, 2, 2)];
    let rounds = vec![1, 2, 3, 4];
    assert_eq!(validate_fetch_blocks_request(&refs, &rounds, 4, 10, 7), Ok(()));
    assert_eq!(validate_fetch_blocks_request(&Vec::new(), &Vec::new(), 4, 10, 7), Ok(()));
}

#[test]
fn commit_range_is_clamped_to_batch_size() {
    // end + 1 within the batch: served as asked.
    assert_eq!(clamp_commit_range(5, 10, 6), 11);
    // batch smaller than the request: clamped.
    assert_eq!(clamp_commit_range(5, 10, 3), 8);
    assert_eq!(clamp_commit_range(0, 1000, 10), 10);
    assert_eq!(clamp_commit_range(7, 7, 1), 8);
}

#[test]
fn vote_stake_counts_each_author_once() {
    let committee = committee4();
    let votes = vec![bref(1, 4, 1), bref(1, 5, 2), bref(1, 6, 3)];
    assert_eq!(tally_votes_stake(&votes, &committee), 1);
    let votes = vec![bref(0, 4, 1), bref(1, 4, 2), bref(2, 4, 3), bref(2, 5, 4)];
    assert_eq!(tally_votes_stake(&votes, &committee), 3);
}

#[test]
fn certification_trims_uncertified_tail() {
    // Committee of 4, stakes [1,1,1,1], quorum threshold 3. Commits 5..=10;
    // commit 10 has only 2 votes, 9 has 2, 8 has 3: the returned list is
    // trimmed to 5..=8 and certified by commit 8's votes.
    let committee = committee4();
    let commits: Vec<Commit> = (5..=10).map(|i| Commit { index: i, digest: i as u64 }).collect();
    let votes: Vec<Vec<BlockRef>> = vec![
        vec![bref(0, 6, 1)],
        vec![bref(0, 7, 1), bref(1, 7, 2)],
        vec![bref(1, 8, 1)],
        vec![bref(0, 9, 1), bref(1, 9, 2), bref(2, 9, 3)],
        vec![bref(0, 10, 1), bref(1, 10, 2)],
        vec![bref(2, 11, 1), bref(3, 11, 2)],
    ];
    let (kept, certifiers) = certify_commits(commits, &votes, &committee);
    assert_eq!(kept.len(), 4);
    assert_eq!(kept.last().unwrap().index, 8);
    assert_eq!(certifiers, vec![bref(0, 9, 1), bref(1, 9, 2), bref(2, 9, 3)]);
}

#[test]
fn certification_returns_empty_when_nothing_reaches_quorum() {
    let committee = committee4();
    let commits: Vec<Commit> = (5..=7).map(|i| Commit { index: i, digest: 0 }).collect();
    let votes: Vec<Vec<BlockRef>> = vec![
        vec![bref(0, 6, 1)],
        vec![bref(1, 7, 1), bref(1, 8, 2)],
        vec![],
    ];
    let (kept, certifiers) = certify_commits(commits, &votes, &committee);
    assert!(kept.is_empty());
    assert!(certifiers.is_empty());
}

#[test]
fn certified_last_commit_keeps_everything_below_it() {
    let committee = committee4();
    let commits: Vec<Commit> = (1..=3).map(|i| Commit { index: i, digest: 0 }).collect();
    // Only the last commit is certified; earlier ones need no own quorum.
    let votes: Vec<Vec<BlockRef>> = vec![
        vec![],
        vec![],
        vec![bref(0, 4, 1), bref(1, 4, 2), bref(3, 4, 3)],
    ];
    let (kept, certifiers) = certify_commits(commits, &votes, &committee);
    assert_eq!(kept.len(), 3);
    assert_eq!(certifiers.len(), 3);
}

#[test]
fn ancestors_beyond_accepted_rounds_are_selected_in_order() {
    let rounds = vec![5, 5, 5, 5];
    let blocks = vec![
        Some(block(0, 7, vec![bref(1, 6, 1), bref(2, 4, 2)], vec![1])),
        None,
        Some(block(1, 8, vec![bref(3, 9, 3), bref(0, 5, 4)], vec![2])),
    ];
    let picked = select_additional_ancestors(&blocks, &rounds);
    assert_eq!(picked, vec![bref(1, 6, 1), bref(3, 9, 3)]);
}

#[test]
fn at_most_ten_additional_ancestors_are_served() {
    let rounds = vec![0];
    let ancestors: Vec<BlockRef> = (1..=12).map(|r| bref(0, r, r as u64)).collect();
    let blocks = vec![Some(block(0, 13, ancestors, vec![1]))];
    let picked = select_additional_ancestors(&blocks, &rounds);
    assert_eq!(picked.len(), 10);
    assert_eq!(picked[0], bref(0, 1, 1));
    assert_eq!(picked[9], bref(0, 10, 10));
}

#[test]
fn response_holds_found_blocks_then_ancestors() {
    let primary = vec![
        Some(block(0, 1, vec![], vec![10, 11])),
        None,
        Some(block(1, 2, vec![], vec![20])),
    ];
    let ancestors = vec![None, Some(block(2, 3, vec![], vec![30]))];
    let bytes = assemble_fetched_blocks(&primary, &ancestors);
    assert_eq!(bytes, vec![vec![10, 11], vec![20], vec![30]]);
}
