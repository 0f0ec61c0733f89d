//! Running tally of stake over a set of authorities, used to decide
//! whether recorded votes reach a quorum or validity threshold. An
//! authority's stake is counted at most once however often it is added.

use vstd::prelude::*;

use crate::committee::{sum_stakes, Committee};

verus! {

/// Stake of the authorities marked `true` among the first `n` seats.
pub open spec fn marked_stake_upto(voted: Seq<bool>, stakes: Seq<u64>, n: int) -> int
    decreases n,
{
    if n <= 0 {
        0
    } else {
        marked_stake_upto(voted, stakes, n - 1) + if voted[n - 1] {
            stakes[n - 1] as int
        } else {
            0
        }
    }
}

/// Stake of all authorities marked `true`.
pub open spec fn marked_stake(voted: Seq<bool>, stakes: Seq<u64>) -> int {
    marked_stake_upto(voted, stakes, stakes.len() as int)
}

/// Marked stake is bounded by the sum of the first `n` stakes.
pub proof fn lemma_marked_stake_upto_bound(voted: Seq<bool>, stakes: Seq<u64>, n: int)
    requires
        0 <= n <= stakes.len(),
        n <= voted.len(),
    ensures
        0 <= marked_stake_upto(voted, stakes, n) <= sum_stakes(stakes.take(n)),
    decreases n,
{
    if n > 0 {
        lemma_marked_stake_upto_bound(voted, stakes, n - 1);
        assert(stakes.take(n).drop_last() =~= stakes.take(n - 1));
    }
}

/// Marking one more authority raises the tally by exactly its stake; the
/// rest of the marking is untouched.
pub proof fn lemma_marked_stake_upto_set(voted: Seq<bool>, stakes: Seq<u64>, a: int, n: int)
    requires
        0 <= a < voted.len(),
        0 <= n <= stakes.len(),
        n <= voted.len(),
        !voted[a],
    ensures
        marked_stake_upto(voted.update(a, true), stakes, n) == marked_stake_upto(
            voted,
            stakes,
            n,
        ) + if a < n {
            stakes[a] as int
        } else {
            0
        },
    decreases n,
{
    if n > 0 {
        lemma_marked_stake_upto_set(voted, stakes, a, n - 1);
    }
}

/// Accumulates stake for a set of authorities of one committee. Scoped to
/// a single certification check.
pub struct StakeAggregator {
    pub voted: Vec<bool>,
    pub stake: u64,
}

impl StakeAggregator {
    /// Well-formedness with respect to the committee the votes come from:
    /// one slot per seat, and the tally equal to the stake of the marked
    /// authorities.
    pub open spec fn wf(self, committee: Committee) -> bool {
        &&& self.voted@.len() == committee.spec_size()
        &&& self.stake as int == marked_stake(self.voted@, committee.spec_stakes())
    }

    /// The set of authorities counted so far, as a boolean per seat.
    pub open spec fn spec_voted(self) -> Seq<bool> {
        self.voted@
    }

    /// An empty tally for the given committee.
    pub fn new(committee: &Committee) -> (r: StakeAggregator)
        requires
            committee.wf(),
        ensures
            r.wf(*committee),
            forall|i: int| 0 <= i < r.spec_voted().len() ==> !r.spec_voted()[i],
            r.stake == 0,
    {
        let size = committee.size();
        let mut voted: Vec<bool> = Vec::new();
        let mut i: usize = 0;
        while i < size
            invariant
                0 <= i <= size,
                voted@.len() == i,
                forall|j: int| 0 <= j < i ==> !voted@[j],
            decreases size - i,
        {
            voted.push(false);
            i = i + 1;
        }
        proof {
            lemma_marked_stake_zero(voted@, committee.spec_stakes(), committee.spec_size());
        }
        StakeAggregator { voted, stake: 0 }
    }

    /// Adds one authority's vote. Returns whether the authority was new to
    /// the tally; a repeated authority changes nothing.
    pub fn add(&mut self, authority: u32, committee: &Committee) -> (fresh: bool)
        requires
            committee.wf(),
            old(self).wf(*committee),
            (authority as int) < committee.spec_size(),
        ensures
            final(self).wf(*committee),
            fresh == !old(self).spec_voted()[authority as int],
            final(self).spec_voted() == old(self).spec_voted().update(authority as int, true),
            final(self).stake as int == old(self).stake as int + if fresh {
                committee.spec_stakes()[authority as int] as int
            } else {
                0
            },
    {
        let a = authority as usize;
        if self.voted[a] {
            proof {
                assert(self.voted@.update(a as int, true) =~= self.voted@);
            }
            return false;
        }
        proof {
            lemma_marked_stake_upto_set(
                self.voted@,
                committee.spec_stakes(),
                a as int,
                committee.spec_size(),
            );
            lemma_marked_stake_upto_bound(
                self.voted@.update(a as int, true),
                committee.spec_stakes(),
                committee.spec_size(),
            );
            assert(committee.spec_stakes().take(committee.spec_size()) =~= committee.spec_stakes());
        }
        self.voted.set(a, true);
        self.stake = self.stake + committee.stake(authority);
        true
    }

    /// Whether the tally has reached the given stake threshold.
    pub fn reached(&self, threshold: u64) -> (r: bool)
        ensures
            r == (self.stake >= threshold),
    {
        self.stake >= threshold
    }
}

/// An all-false marking tallies no stake.
pub proof fn lemma_marked_stake_zero(voted: Seq<bool>, stakes: Seq<u64>, n: int)
    requires
        0 <= n <= voted.len(),
        n <= stakes.len(),
        forall|i: int| 0 <= i < voted.len() ==> !voted[i],
    ensures
        marked_stake_upto(voted, stakes, n) == 0,
    decreases n,
{
    if n > 0 {
        lemma_marked_stake_zero(voted, stakes, n - 1);
    }
}

} // verus!
