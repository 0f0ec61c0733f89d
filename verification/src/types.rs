//! Core data types: block and commit identifiers, block contents as the
//! service reads them, and the error taxonomy of the peer-facing operations.

use vstd::prelude::*;

verus! {

/// Identity of a block: the authority that produced it, its round, and a
/// digest of its contents.
#[derive(Clone, Copy, Debug, PartialEq, Eq, Structural)]
pub struct BlockRef {
    pub author: u32,
    pub round: u32,
    pub digest: u64,
}

/// Identity of a commit: its index in the committed sequence and a digest.
#[derive(Clone, Copy, Debug, PartialEq, Eq, Structural)]
pub struct CommitRef {
    pub index: u32,
    pub digest: u64,
}

impl CommitRef {
    /// The commit reference every authority starts from.
    pub fn genesis() -> (r: CommitRef)
        ensures
            r.index == 0,
            r.digest == 0,
    {
        CommitRef { index: 0, digest: 0 }
    }
}

/// A verified block as the service reads it: its identity fields, the
/// ancestors it references, the commit votes it carries, and its cached
/// wire bytes (kept so that serving the block needs no re-serialization).
#[derive(Clone, Debug)]
pub struct Block {
    pub author: u32,
    pub round: u32,
    pub timestamp_ms: u64,
    pub ancestors: Vec<BlockRef>,
    pub commit_votes: Vec<CommitRef>,
    pub serialized: Vec<u8>,
}

/// A commit certified by quorum stake, as served to catching-up peers.
#[derive(Clone, Copy, Debug, PartialEq, Eq, Structural)]
pub struct Commit {
    pub index: u32,
    pub digest: u64,
}

/// Why a structurally sound block was nevertheless rejected.
#[derive(Clone, Copy, Debug, PartialEq, Eq, Structural)]
pub enum RejectReason {
    /// The block's timestamp exceeds local time by more than the allowed drift.
    FutureTimestamp,
    /// The local commit index lags the quorum commit index too far; the
    /// authority should catch up through commit synchronization instead.
    CommitLagging,
}

/// Errors of the peer-facing operations. Every rejection of untrusted
/// input is a value of this type; none of them is fatal to the service.
#[derive(Clone, Copy, Debug, PartialEq, Eq, Structural)]
pub enum ConsensusError {
    /// The submitted bytes did not deserialize as a signed block.
    MalformedBlock,
    /// A block claimed an author other than the peer that sent it;
    /// fields are the claimed author and the sending peer.
    UnexpectedAuthority(u32, u32),
    /// Structural or signature verification of the block failed.
    InvalidBlock,
    /// A policy rejection of an otherwise valid block.
    BlockRejected { block_author: u32, block_round: u32, reason: RejectReason },
    /// A fetch request named more blocks than the per-request cap allows;
    /// the field is the requesting peer.
    TooManyFetchBlocksRequested(u32),
    /// A non-empty highest-accepted-rounds vector did not have one entry
    /// per committee member; fields are its length and the committee size.
    InvalidSizeOfHighestAcceptedRounds(usize, usize),
    /// A block reference named an authority outside the committee;
    /// fields are the offending index and the committee size.
    InvalidAuthorityIndex { index: u32, max: usize },
    /// A block reference named the genesis round, which is synthetic and
    /// never transmitted.
    UnexpectedGenesisBlockRequested,
    /// The core dispatcher has shut down; the only terminal condition.
    Shutdown,
}

} // verus!
