//! Tracking of the highest commit each peer has voted for, and the
//! stake-weighted frontier derived from those observations: the highest
//! commit reference that authorities holding at least a threshold of
//! stake have voted at or above.

use vstd::prelude::*;

use crate::committee::{lemma_sum_stakes_prefix, sum_stakes, Committee};
use crate::types::CommitRef;

verus! {

/// Strict order on commit references: by index, then by digest.
pub open spec fn ref_lt(a: CommitRef, b: CommitRef) -> bool {
    a.index < b.index || (a.index == b.index && a.digest < b.digest)
}

/// Reflexive order on commit references.
pub open spec fn ref_le(a: CommitRef, b: CommitRef) -> bool {
    ref_lt(a, b) || a == b
}

/// Executable form of `ref_lt`.
pub fn ref_lt_exec(a: CommitRef, b: CommitRef) -> (r: bool)
    ensures
        r == ref_lt(a, b),
{
    a.index < b.index || (a.index == b.index && a.digest < b.digest)
}

/// Stake, among the first `n` peers, of those whose observed highest
/// commit is at or above `c`.
pub open spec fn supporting_stake_upto(
    refs: Seq<CommitRef>,
    stakes: Seq<u64>,
    c: CommitRef,
    n: int,
) -> int
    decreases n,
{
    if n <= 0 {
        0
    } else {
        supporting_stake_upto(refs, stakes, c, n - 1) + if ref_le(c, refs[n - 1]) {
            stakes[n - 1] as int
        } else {
            0
        }
    }
}

/// Stake of all peers whose observed highest commit is at or above `c`.
pub open spec fn supporting_stake(refs: Seq<CommitRef>, stakes: Seq<u64>, c: CommitRef) -> int {
    supporting_stake_upto(refs, stakes, c, refs.len() as int)
}

/// Supporting stake is non-negative and bounded by the sum of the stakes
/// considered.
pub proof fn lemma_supporting_stake_upto_bound(
    refs: Seq<CommitRef>,
    stakes: Seq<u64>,
    c: CommitRef,
    n: int,
)
    requires
        0 <= n <= stakes.len(),
    ensures
        0 <= supporting_stake_upto(refs, stakes, c, n) <= sum_stakes(stakes.take(n)),
    decreases n,
{
    if n > 0 {
        lemma_supporting_stake_upto_bound(refs, stakes, c, n - 1);
        assert(stakes.take(n).drop_last() =~= stakes.take(n - 1));
    }
}

/// Raising any peer's observed commit cannot lower any commit's support.
pub proof fn lemma_supporting_stake_monotone(
    refs1: Seq<CommitRef>,
    refs2: Seq<CommitRef>,
    stakes: Seq<u64>,
    c: CommitRef,
    n: int,
)
    requires
        0 <= n <= refs1.len(),
        refs1.len() == refs2.len(),
        forall|i: int| 0 <= i < refs1.len() ==> ref_le(refs1[i], refs2[i]),
    ensures
        supporting_stake_upto(refs1, stakes, c, n) <= supporting_stake_upto(refs2, stakes, c, n),
    decreases n,
{
    if n > 0 {
        lemma_supporting_stake_monotone(refs1, refs2, stakes, c, n - 1);
    }
}

/// A commit that sits at or below every supporter of `c` gathers at least
/// the support of `c`.
pub proof fn lemma_supporting_stake_dominated(
    refs: Seq<CommitRef>,
    stakes: Seq<u64>,
    c: CommitRef,
    m: CommitRef,
    n: int,
)
    requires
        0 <= n <= refs.len(),
        forall|i: int| 0 <= i < refs.len() && ref_le(c, refs[i]) ==> ref_le(m, refs[i]),
    ensures
        supporting_stake_upto(refs, stakes, c, n) <= supporting_stake_upto(refs, stakes, m, n),
    decreases n,
{
    if n > 0 {
        lemma_supporting_stake_dominated(refs, stakes, c, m, n - 1);
    }
}

/// The frontier over the first `n` peers: the greatest observed commit
/// reference whose supporting stake reaches `threshold`, if any does.
pub open spec fn frontier_upto(
    refs: Seq<CommitRef>,
    stakes: Seq<u64>,
    threshold: u64,
    n: int,
) -> Option<CommitRef>
    decreases n,
{
    if n <= 0 {
        None
    } else {
        let rest = frontier_upto(refs, stakes, threshold, n - 1);
        let c = refs[n - 1];
        if supporting_stake(refs, stakes, c) >= threshold {
            match rest {
                None => Some(c),
                Some(m) => if ref_lt(m, c) {
                    Some(c)
                } else {
                    Some(m)
                },
            }
        } else {
            rest
        }
    }
}

/// The quorum frontier: the greatest commit reference observed from any
/// peer whose supporting stake reaches `threshold`; `None` when no
/// observed reference has that much support.
pub open spec fn quorum_frontier_spec(
    refs: Seq<CommitRef>,
    stakes: Seq<u64>,
    threshold: u64,
) -> Option<CommitRef> {
    frontier_upto(refs, stakes, threshold, refs.len() as int)
}

/// What the frontier is: an observed reference with threshold support,
/// above every other observed reference with threshold support — and
/// `None` exactly when no observed reference has such support.
pub proof fn lemma_frontier_upto_characterization(
    refs: Seq<CommitRef>,
    stakes: Seq<u64>,
    threshold: u64,
    n: int,
)
    requires
        0 <= n <= refs.len(),
    ensures
        match frontier_upto(refs, stakes, threshold, n) {
            None => forall|j: int|
                0 <= j < n ==> supporting_stake(refs, stakes, refs[j]) < threshold,
            Some(m) => {
                &&& exists|j: int| 0 <= j < n && refs[j] == m
                &&& supporting_stake(refs, stakes, m) >= threshold
                &&& forall|j: int|
                    0 <= j < n && supporting_stake(refs, stakes, refs[j]) >= threshold ==> ref_le(
                        refs[j],
                        m,
                    )
            },
        },
    decreases n,
{
    if n > 0 {
        lemma_frontier_upto_characterization(refs, stakes, threshold, n - 1);
    }
}

/// The least observed reference at or above `c`, among the first `n`.
pub open spec fn min_above_upto(refs: Seq<CommitRef>, c: CommitRef, n: int) -> Option<CommitRef>
    decreases n,
{
    if n <= 0 {
        None
    } else {
        let rest = min_above_upto(refs, c, n - 1);
        let x = refs[n - 1];
        if ref_le(c, x) {
            match rest {
                None => Some(x),
                Some(m) => if ref_lt(x, m) {
                    Some(x)
                } else {
                    Some(m)
                },
            }
        } else {
            rest
        }
    }
}

/// The least supporter of `c` is itself at or above `c`, is observed, and
/// sits at or below every supporter of `c`.
pub proof fn lemma_min_above_upto_characterization(refs: Seq<CommitRef>, c: CommitRef, n: int)
    requires
        0 <= n <= refs.len(),
    ensures
        match min_above_upto(refs, c, n) {
            None => forall|i: int| 0 <= i < n ==> !ref_le(c, refs[i]),
            Some(m) => {
                &&& exists|i: int| 0 <= i < n && refs[i] == m
                &&& ref_le(c, m)
                &&& forall|i: int| 0 <= i < n && ref_le(c, refs[i]) ==> ref_le(m, refs[i])
            },
        },
    decreases n,
{
    if n > 0 {
        lemma_min_above_upto_characterization(refs, c, n - 1);
    }
}

/// LAW: the quorum frontier is monotone in the observations. When every
/// peer's observed highest commit only moves up (or stays), a frontier
/// that existed still exists and has not moved down.
pub proof fn lemma_quorum_frontier_monotone(
    refs1: Seq<CommitRef>,
    refs2: Seq<CommitRef>,
    stakes: Seq<u64>,
    threshold: u64,
)
    requires
        refs1.len() == refs2.len(),
        refs1.len() == stakes.len(),
        forall|i: int| 0 <= i < refs1.len() ==> ref_le(refs1[i], refs2[i]),
    ensures
        match quorum_frontier_spec(refs1, stakes, threshold) {
            None => true,
            Some(c1) => {
                &&& quorum_frontier_spec(refs2, stakes, threshold) is Some
                &&& ref_le(c1, quorum_frontier_spec(refs2, stakes, threshold).unwrap())
            },
        },
{
    let n = refs1.len() as int;
    lemma_frontier_upto_characterization(refs1, stakes, threshold, n);
    lemma_frontier_upto_characterization(refs2, stakes, threshold, n);
    match quorum_frontier_spec(refs1, stakes, threshold) {
        None => {},
        Some(c1) => {
            let k = choose|k: int| 0 <= k < n && refs1[k] == c1;
            lemma_supporting_stake_monotone(refs1, refs2, stakes, c1, n);
            // c1 keeps threshold support among the raised observations.
            assert(supporting_stake(refs2, stakes, c1) >= threshold);
            // Some observed reference sits at or above c1, so the least
            // such reference exists.
            assert(ref_le(refs1[k], refs2[k]));
            lemma_min_above_upto_characterization(refs2, c1, n);
            assert(ref_le(c1, refs2[k]));
            let m = min_above_upto(refs2, c1, n).unwrap();
            // The least supporter inherits at least c1's support.
            lemma_supporting_stake_dominated(refs2, stakes, c1, m, n);
            assert(supporting_stake(refs2, stakes, m) >= threshold);
            let j = choose|j: int| 0 <= j < n && refs2[j] == m;
            assert(supporting_stake(refs2, stakes, refs2[j]) >= threshold);
        },
    }
}

/// One observation folded into the tracked highest commits: a vote
/// replaces a peer's entry only when its index is strictly higher.
pub open spec fn observe_one(h: Seq<CommitRef>, author: int, vote: CommitRef) -> Seq<CommitRef> {
    if 0 <= author < h.len() && vote.index > h[author].index {
        h.update(author, vote)
    } else {
        h
    }
}

/// A block's votes folded into the tracked highest commits, in order.
pub open spec fn observe_all(h: Seq<CommitRef>, author: int, votes: Seq<CommitRef>) -> Seq<
    CommitRef,
>
    decreases votes.len(),
{
    if votes.len() == 0 {
        h
    } else {
        observe_one(observe_all(h, author, votes.drop_last()), author, votes.last())
    }
}

/// LAW: observation is monotone. Folding any block's votes into the
/// tracked highest commits never lowers any peer's entry.
pub proof fn lemma_observe_all_monotone(h: Seq<CommitRef>, author: int, votes: Seq<CommitRef>)
    ensures
        observe_all(h, author, votes).len() == h.len(),
        forall|i: int| 0 <= i < h.len() ==> ref_le(h[i], #[trigger] observe_all(h, author, votes)[i]),
    decreases votes.len(),
{
    if votes.len() > 0 {
        lemma_observe_all_monotone(h, author, votes.drop_last());
    }
}

/// LAW: the quorum frontier never moves down across an observation,
/// whatever block is observed and in whatever order observations arrive.
pub proof fn lemma_frontier_monotone_under_observation(
    h: Seq<CommitRef>,
    stakes: Seq<u64>,
    threshold: u64,
    author: int,
    votes: Seq<CommitRef>,
)
    requires
        h.len() == stakes.len(),
    ensures
        match quorum_frontier_spec(h, stakes, threshold) {
            None => true,
            Some(c1) => {
                &&& quorum_frontier_spec(observe_all(h, author, votes), stakes, threshold) is Some
                &&& ref_le(
                    c1,
                    quorum_frontier_spec(observe_all(h, author, votes), stakes, threshold).unwrap(),
                )
            },
        },
{
    lemma_observe_all_monotone(h, author, votes);
    lemma_quorum_frontier_monotone(h, observe_all(h, author, votes), stakes, threshold);
}

/// Tracks, per peer, the highest commit reference the peer has voted for,
/// as observed from the blocks it sends.
pub struct CommitVoteMonitor {
    pub highest: Vec<CommitRef>,
}

impl CommitVoteMonitor {
    /// Well-formedness: one tracked entry per committee seat.
    pub open spec fn wf(self, committee: Committee) -> bool {
        self.highest@.len() == committee.spec_size()
    }

    /// A monitor that has observed nothing: every peer at genesis.
    pub fn new(committee: &Committee) -> (r: CommitVoteMonitor)
        requires
            committee.wf(),
        ensures
            r.wf(*committee),
            forall|i: int|
                0 <= i < r.highest@.len() ==> r.highest@[i] == (CommitRef {
                    index: 0u32,
                    digest: 0u64,
                }),
    {
        let size = committee.size();
        let mut highest: Vec<CommitRef> = Vec::new();
        let mut i: usize = 0;
        while i < size
            invariant
                0 <= i <= size,
                highest@.len() == i,
                forall|j: int|
                    0 <= j < i ==> highest@[j] == (CommitRef { index: 0u32, digest: 0u64 }),
            decreases size - i,
        {
            highest.push(CommitRef::genesis());
            i = i + 1;
        }
        CommitVoteMonitor { highest }
    }

    /// Records the commit votes of one block: each vote raises its
    /// author's tracked entry when the vote's index is strictly higher.
    pub fn observe(&mut self, author: u32, votes: &Vec<CommitRef>)
        requires
            (author as int) < old(self).highest@.len(),
        ensures
            final(self).highest@ == observe_all(old(self).highest@, author as int, votes@),
    {
        let a = author as usize;
        let ghost h0 = self.highest@;
        let mut j: usize = 0;
        while j < votes.len()
            invariant
                0 <= j <= votes@.len(),
                a < self.highest@.len(),
                a == author as int,
                self.highest@ == observe_all(h0, a as int, votes@.take(j as int)),
                self.highest@.len() == h0.len(),
            decreases votes@.len() - j,
        {
            let v = votes[j];
            proof {
                assert(votes@.take(j + 1).drop_last() =~= votes@.take(j as int));
                assert(votes@.take(j + 1).last() == votes@[j as int]);
            }
            if v.index > self.highest[a].index {
                self.highest.set(a, v);
            }
            j = j + 1;
        }
        proof {
            assert(votes@.take(votes@.len() as int) =~= votes@);
        }
    }

    /// Stake of the peers whose tracked highest commit is at or above `c`.
    fn supporting_stake_of(&self, committee: &Committee, c: CommitRef) -> (s: u64)
        requires
            committee.wf(),
            self.wf(*committee),
        ensures
            s as int == supporting_stake(self.highest@, committee.spec_stakes(), c),
    {
        let ghost refs = self.highest@;
        let ghost stakes = committee.spec_stakes();
        let n = self.highest.len();
        let mut acc: u64 = 0;
        let mut i: usize = 0;
        while i < n
            invariant
                0 <= i <= n,
                n == refs.len(),
                refs == self.highest@,
                stakes == committee.spec_stakes(),
                committee.wf(),
                self.wf(*committee),
                acc as int == supporting_stake_upto(refs, stakes, c, i as int),
            decreases n - i,
        {
            let ghost ii = i as int;
            proof {
                lemma_supporting_stake_upto_bound(refs, stakes, c, ii + 1);
                lemma_sum_stakes_prefix(stakes, ii + 1);
                assert(supporting_stake_upto(refs, stakes, c, ii + 1)
                    == supporting_stake_upto(refs, stakes, c, ii) + (if ref_le(c, refs[ii]) {
                    stakes[ii] as int
                } else {
                    0
                }));
            }
            let x = self.highest[i];
            if !ref_lt_exec(x, c) {
                // The order is total, so c is at or below x here.
                assert(ref_le(c, x));
                acc = acc + committee.stake_at(i);
            } else {
                assert(!ref_le(c, x));
            }
            i = i + 1;
        }
        acc
    }

    /// The greatest tracked commit reference supported by at least
    /// `threshold` stake, if any.
    pub fn quorum_frontier(&self, committee: &Committee, threshold: u64) -> (r: Option<CommitRef>)
        requires
            committee.wf(),
            self.wf(*committee),
        ensures
            r == quorum_frontier_spec(self.highest@, committee.spec_stakes(), threshold),
    {
        let ghost refs = self.highest@;
        let ghost stakes = committee.spec_stakes();
        let n = self.highest.len();
        let mut best: Option<CommitRef> = None;
        let mut i: usize = 0;
        while i < n
            invariant
                0 <= i <= n,
                n == refs.len(),
                refs == self.highest@,
                stakes == committee.spec_stakes(),
                committee.wf(),
                self.wf(*committee),
                best == frontier_upto(refs, stakes, threshold, i as int),
            decreases n - i,
        {
            let c = self.highest[i];
            let s = self.supporting_stake_of(committee, c);
            if s >= threshold {
                best = match best {
                    None => Some(c),
                    Some(m) => if ref_lt_exec(m, c) {
                        Some(c)
                    } else {
                        Some(m)
                    },
                };
            }
            i = i + 1;
        }
        best
    }

    /// The index of the quorum commit frontier under the committee's
    /// quorum threshold; genesis when no index has quorum support.
    pub fn quorum_commit_index(&self, committee: &Committee) -> (r: u32)
        requires
            committee.wf(),
            self.wf(*committee),
        ensures
            r == spec_quorum_commit_index(self.highest@, *committee),
    {
        let threshold = committee.quorum_threshold();
        match self.quorum_frontier(committee, threshold) {
            Some(c) => c.index,
            None => 0,
        }
    }
}

/// The quorum commit index derived from tracked votes: the index of the
/// quorum frontier, or genesis when no commit has quorum support.
pub open spec fn spec_quorum_commit_index(refs: Seq<CommitRef>, committee: Committee) -> u32 {
    match quorum_frontier_spec(
        refs,
        committee.spec_stakes(),
        committee.spec_quorum_threshold() as u64,
    ) {
        Some(c) => c.index,
        None => 0u32,
    }
}

} // verus!
