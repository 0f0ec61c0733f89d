//! The committee: per-authority stakes and the stake thresholds that
//! certification and quorum decisions use.

use vstd::prelude::*;

verus! {

/// Sum of the stakes of all authorities.
pub open spec fn sum_stakes(stakes: Seq<u64>) -> int
    decreases stakes.len(),
{
    if stakes.len() == 0 {
        0
    } else {
        sum_stakes(stakes.drop_last()) + stakes.last()
    }
}

/// Every prefix sum is bounded by the whole sum.
pub proof fn lemma_sum_stakes_prefix(stakes: Seq<u64>, n: int)
    requires
        0 <= n <= stakes.len(),
    ensures
        sum_stakes(stakes.take(n)) <= sum_stakes(stakes),
    decreases stakes.len() - n,
{
    if n == stakes.len() {
        assert(stakes.take(n) =~= stakes);
    } else {
        lemma_sum_stakes_prefix(stakes, n + 1);
        assert(stakes.take(n + 1).drop_last() =~= stakes.take(n));
    }
}

/// The fixed committee of authorities, with one stake entry per seat.
///
/// `total_stake` caches the sum of the stakes; it is kept at or below
/// `u64::MAX / 2` so that the doubled total used by the quorum threshold
/// always fits in a `u64`.
#[derive(Clone, Debug)]
pub struct Committee {
    pub stakes: Vec<u64>,
    pub total_stake: u64,
}

impl Committee {
    /// Well-formedness: the cached total is the sum of the stakes and
    /// doubling it cannot overflow.
    pub open spec fn wf(self) -> bool {
        &&& self.total_stake as int == sum_stakes(self.stakes@)
        &&& self.total_stake <= u64::MAX / 2
        &&& self.stakes@.len() >= 1
    }

    /// The stakes, one per authority index.
    pub open spec fn spec_stakes(self) -> Seq<u64> {
        self.stakes@
    }

    /// The committee size in seats.
    pub open spec fn spec_size(self) -> int {
        self.stakes@.len() as int
    }

    /// Total stake of the committee.
    pub open spec fn spec_total_stake(self) -> int {
        self.total_stake as int
    }

    /// Minimum stake that certifies a quorum (more than two thirds).
    pub open spec fn spec_quorum_threshold(self) -> int {
        2 * self.total_stake as int / 3 + 1
    }

    /// Minimum stake held by at least one honest authority (more than one third).
    pub open spec fn spec_validity_threshold(self) -> int {
        self.total_stake as int / 3 + 1
    }

    /// Forms a committee from per-authority stakes. Returns `None` when the
    /// committee would be empty or its total stake too large to double
    /// without overflow.
    pub fn new(stakes: Vec<u64>) -> (r: Option<Committee>)
        ensures
            match r {
                Some(c) => c.wf() && c.spec_stakes() == stakes@,
                None => stakes@.len() == 0 || sum_stakes(stakes@) > u64::MAX / 2,
            },
    {
        if stakes.len() == 0 {
            return None;
        }
        let limit: u64 = u64::MAX / 2;
        let mut total: u64 = 0;
        let mut i: usize = 0;
        while i < stakes.len()
            invariant
                0 <= i <= stakes@.len(),
                total as int == sum_stakes(stakes@.take(i as int)),
                total <= limit,
                limit == u64::MAX / 2,
            decreases stakes@.len() - i,
        {
            let s = stakes[i];
            proof {
                assert(stakes@.take(i + 1).drop_last() =~= stakes@.take(i as int));
                assert(stakes@.take(i + 1).last() == stakes@[i as int]);
            }
            if s > limit - total {
                proof {
                    lemma_sum_stakes_prefix(stakes@, i + 1);
                }
                return None;
            }
            total = total + s;
            i = i + 1;
        }
        proof {
            assert(stakes@.take(stakes@.len() as int) =~= stakes@);
        }
        Some(Committee { stakes, total_stake: total })
    }

    /// Number of seats.
    pub fn size(&self) -> (r: usize)
        ensures
            r as int == self.spec_size(),
    {
        self.stakes.len()
    }

    /// Whether `index` names a seat of this committee.
    pub fn is_valid_index(&self, index: u32) -> (r: bool)
        ensures
            r == ((index as int) < self.spec_size()),
    {
        (index as usize) < self.stakes.len()
    }

    /// The stake of one authority.
    pub fn stake(&self, index: u32) -> (r: u64)
        requires
            (index as int) < self.spec_size(),
        ensures
            r == self.spec_stakes()[index as int],
    {
        self.stakes[index as usize]
    }

    /// The stake of one authority, by seat position.
    pub fn stake_at(&self, index: usize) -> (r: u64)
        requires
            (index as int) < self.spec_size(),
        ensures
            r == self.spec_stakes()[index as int],
    {
        self.stakes[index]
    }

    /// Total stake of the committee.
    pub fn total_stake(&self) -> (r: u64)
        ensures
            r as int == self.spec_total_stake(),
    {
        self.total_stake
    }

    /// Stake above which a set of authorities certifies a quorum.
    pub fn quorum_threshold(&self) -> (r: u64)
        requires
            self.wf(),
        ensures
            r as int == self.spec_quorum_threshold(),
    {
        2 * self.total_stake / 3 + 1
    }

    /// Stake above which a set of authorities must contain an honest one.
    pub fn validity_threshold(&self) -> (r: u64)
        requires
            self.wf(),
        ensures
            r as int == self.spec_validity_threshold(),
    {
        self.total_stake / 3 + 1
    }
}

} // verus!
