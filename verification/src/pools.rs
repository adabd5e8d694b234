//! Staking pools: a registered user asks the pool contract for a pool, stakers
//! stake through the pool contract and vote for one of the instructors who
//! applied, and the pool's owner ends the vote.
use vstd::prelude::*;

use crate::collections::{views_of, StrMap};
use crate::context::{promise_status, promise_status_spec, CallContext, Callback, ContractError, CrossCall, PoolCall, PromiseOutcome};
use crate::elearning::{all_keyed, limit_or, page_bounds, page_of, stakes_accounted, start_or_zero, ELearningContract};
use crate::models::{PoolMetadata, PoolState, Roles, StakeInfo, UnstakeInfo};
use crate::repository::{convert_pool_title_to_pool_id, pool_id_spec};
use crate::shares::{lemma_map_total_insert, lemma_str_map_finite, map_total};

verus! {

/// Milliseconds a stake is locked: three days.
pub const STAKING_PERIOD_MS: u64 = 259200000;

/// Milliseconds an unstaked amount waits: ten days.
pub const UNSTAKING_PERIOD_MS: u64 = 864000000;

/// The key, among `ks`, with the most votes: the first one to reach the
/// largest count.
pub open spec fn first_max(votes: Map<Seq<char>, u32>, ks: Seq<Seq<char>>) -> Option<Seq<char>>
    decreases ks.len(),
{
    if ks.len() == 0 {
        None
    } else {
        match first_max(votes, ks.drop_last()) {
            None => Some(ks.last()),
            Some(k) => if votes[ks.last()] > votes[k] {
                Some(ks.last())
            } else {
                Some(k)
            },
        }
    }
}

/// Votes a winner needs among `n` stakers: two thirds of them, rounded down.
pub open spec fn min_consensus(n: nat) -> u32 {
    ((2 * n) / 3) as u32
}

/// The votes a winner needs among `n` stakers are two thirds of them,
/// rounded down: the largest count whose triple is at most `2 * n`.
pub proof fn winner_needs_two_thirds(n: nat)
    requires
        n <= u32::MAX,
    ensures
        3 * min_consensus(n) <= 2 * n,
        2 * n < 3 * (min_consensus(n) + 1),
{
}

/// The record `storage_pool_request` makes for a new pool.
pub open spec fn new_pool_record(
    p: PoolMetadata,
    pool_id: Seq<char>,
    owner: Seq<char>,
    now: u64,
    minimum_stake: u128,
    maximum_stake: u128,
) -> bool {
    &&& p.pool_id@ == pool_id
    &&& p.owner_id@ == owner
    &&& p.create_at == now
    &&& p.pool_state == PoolState::ACTIVE
    &&& p.total_stake == 0
    &&& p.current_stake == 0
    &&& p.minimum_stake == minimum_stake
    &&& p.maximum_stake == maximum_stake
    &&& p.staking_period == STAKING_PERIOD_MS
    &&& p.unstaking_period == UNSTAKING_PERIOD_MS
    &&& p.instructors_votes@ == Map::<Seq<char>, u32>::empty()
    &&& p.winner.is_none()
    &&& p.stake_info@ == Map::<Seq<char>, StakeInfo>::empty()
    &&& p.unstake_info@ == Map::<Seq<char>, UnstakeInfo>::empty()
    &&& p.description.is_none()
}

/// Number of the stakers in `stakes` who voted for `k`.
pub open spec fn votes_for(stakes: Map<Seq<char>, StakeInfo>, k: Seq<char>) -> nat
    decreases stakes.dom().len(),
    when stakes.dom().finite()
{
    if stakes.dom().len() == 0 {
        0
    } else {
        let s = stakes.dom().choose();
        votes_for(stakes.remove(s), k) + if voted_for(stakes[s], k) {
            1nat
        } else {
            0nat
        }
    }
}

/// Whether the stake's vote went to `k`.
pub open spec fn voted_for(info: StakeInfo, k: Seq<char>) -> bool {
    info.voted_for matches Some(v) && v@ == k
}

/// The pool's votes are counted: each applicant's count is the number of
/// stakers who voted for them, and every vote went to an applicant.
pub open spec fn votes_counted(pool: PoolMetadata) -> bool {
    &&& forall|k: Seq<char>| #[trigger]
        pool.instructors_votes@.contains_key(k) ==> pool.instructors_votes@[k] == votes_for(pool.stake_info@, k)
    &&& forall|s: Seq<char>| #[trigger]
        pool.stake_info@.contains_key(s) ==> (pool.stake_info@[s].voted_for matches Some(v)
            ==> pool.instructors_votes@.contains_key(v@))
}

/// Any staker can be counted first.
pub proof fn lemma_votes_for_remove(stakes: Map<Seq<char>, StakeInfo>, s: Seq<char>, k: Seq<char>)
    requires
        stakes.dom().finite(),
        stakes.contains_key(s),
    ensures
        votes_for(stakes, k) == votes_for(stakes.remove(s), k) + if voted_for(stakes[s], k) {
            1nat
        } else {
            0nat
        },
    decreases stakes.dom().len(),
{
    let c = stakes.dom().choose();
    assert(stakes.dom().contains(c));
    if c != s {
        lemma_votes_for_remove(stakes.remove(c), s, k);
        lemma_votes_for_remove(stakes.remove(s), c, k);
        assert(stakes.remove(c).remove(s) =~= stakes.remove(s).remove(c));
    }
}

/// Storing a stake changes the count by its vote and the vote it replaces.
pub proof fn lemma_votes_for_insert(stakes: Map<Seq<char>, StakeInfo>, s: Seq<char>, info: StakeInfo, k: Seq<char>)
    requires
        stakes.dom().finite(),
    ensures
        votes_for(stakes.insert(s, info), k) + (if stakes.contains_key(s) && voted_for(stakes[s], k) {
            1int
        } else {
            0int
        }) == votes_for(stakes, k) + if voted_for(info, k) {
            1int
        } else {
            0int
        },
{
    let n = stakes.insert(s, info);
    lemma_votes_for_remove(n, s, k);
    if stakes.contains_key(s) {
        lemma_votes_for_remove(stakes, s, k);
        assert(n.remove(s) =~= stakes.remove(s));
    } else {
        assert(n.remove(s) =~= stakes);
    }
}

/// Nobody voted for someone no staker's vote went to.
pub proof fn lemma_votes_for_none(stakes: Map<Seq<char>, StakeInfo>, k: Seq<char>)
    requires
        stakes.dom().finite(),
        forall|s: Seq<char>| #[trigger] stakes.contains_key(s) ==> !voted_for(stakes[s], k),
    ensures
        votes_for(stakes, k) == 0,
    decreases stakes.dom().len(),
{
    if stakes.dom().len() > 0 {
        let c = stakes.dom().choose();
        assert(stakes.dom().contains(c));
        lemma_votes_for_none(stakes.remove(c), k);
    }
}

/// Number of stakers who have voted.
pub open spec fn voter_count(stakes: Map<Seq<char>, StakeInfo>) -> nat
    decreases stakes.dom().len(),
    when stakes.dom().finite()
{
    if stakes.dom().len() == 0 {
        0
    } else {
        let s = stakes.dom().choose();
        voter_count(stakes.remove(s)) + if stakes[s].voted_for is Some {
            1nat
        } else {
            0nat
        }
    }
}

/// Votes for the keys of `ks`, added up.
pub open spec fn votes_total(stakes: Map<Seq<char>, StakeInfo>, ks: Set<Seq<char>>) -> int
    decreases ks.len(),
    when ks.finite()
{
    if ks.len() == 0 {
        0
    } else {
        let k = ks.choose();
        votes_for(stakes, k) + votes_total(stakes, ks.remove(k))
    }
}

/// Whether the staker's vote went to one of `ks`.
pub open spec fn voted_in(info: StakeInfo, ks: Set<Seq<char>>) -> bool {
    info.voted_for matches Some(v) && ks.contains(v@)
}

/// Any key can be added up first.
proof fn lemma_votes_total_remove(stakes: Map<Seq<char>, StakeInfo>, ks: Set<Seq<char>>, k: Seq<char>)
    requires
        ks.finite(),
        ks.contains(k),
    ensures
        votes_total(stakes, ks) == votes_for(stakes, k) + votes_total(stakes, ks.remove(k)),
    decreases ks.len(),
{
    let c = ks.choose();
    if c != k {
        lemma_votes_total_remove(stakes, ks.remove(c), k);
        lemma_votes_total_remove(stakes, ks.remove(k), c);
        assert(ks.remove(c).remove(k) =~= ks.remove(k).remove(c));
    }
}

/// Taking a staker out takes away their vote, where it went to one of `ks`.
proof fn lemma_votes_total_without(stakes: Map<Seq<char>, StakeInfo>, ks: Set<Seq<char>>, s: Seq<char>)
    requires
        stakes.dom().finite(),
        stakes.contains_key(s),
        ks.finite(),
    ensures
        votes_total(stakes, ks) == votes_total(stakes.remove(s), ks) + if voted_in(stakes[s], ks) {
            1int
        } else {
            0int
        },
    decreases ks.len(),
{
    if ks.len() > 0 {
        let k = ks.choose();
        assert(ks.contains(k));
        lemma_votes_total_without(stakes, ks.remove(k), s);
        lemma_votes_for_remove(stakes, s, k);
        if voted_for(stakes[s], k) {
            assert(voted_in(stakes[s], ks));
            assert(!voted_in(stakes[s], ks.remove(k)));
        } else {
            assert(voted_in(stakes[s], ks) == voted_in(stakes[s], ks.remove(k)));
        }
    } else {
        assert(ks =~= Set::<Seq<char>>::empty());
    }
}

/// Where every vote went to one of `ks`, the votes for `ks` add up to the
/// number of stakers who voted.
proof fn lemma_votes_total_is_voters(stakes: Map<Seq<char>, StakeInfo>, ks: Set<Seq<char>>)
    requires
        stakes.dom().finite(),
        ks.finite(),
        forall|s: Seq<char>| #[trigger] stakes.contains_key(s) ==> (stakes[s].voted_for matches Some(v) ==> ks.contains(v@)),
    ensures
        votes_total(stakes, ks) == voter_count(stakes),
    decreases stakes.dom().len(),
{
    if stakes.dom().len() == 0 {
        assert forall|k: Seq<char>| ks.contains(k) implies votes_for(stakes, k) == 0 by {
            lemma_votes_for_none(stakes, k);
        }
        lemma_votes_total_zero(stakes, ks);
    } else {
        let s = stakes.dom().choose();
        assert(stakes.contains_key(s));
        lemma_votes_total_is_voters(stakes.remove(s), ks);
        lemma_votes_total_without(stakes, ks, s);
    }
}

/// Adding up nothing but zeros gives zero.
proof fn lemma_votes_total_zero(stakes: Map<Seq<char>, StakeInfo>, ks: Set<Seq<char>>)
    requires
        ks.finite(),
        forall|k: Seq<char>| #[trigger] ks.contains(k) ==> votes_for(stakes, k) == 0,
    ensures
        votes_total(stakes, ks) == 0,
    decreases ks.len(),
{
    if ks.len() > 0 {
        let k = ks.choose();
        assert(ks.contains(k));
        lemma_votes_total_zero(stakes, ks.remove(k));
    }
}

/// The applicants' counts, added up, are the votes for the applicants.
proof fn lemma_counts_are_votes(votes: Map<Seq<char>, u32>, stakes: Map<Seq<char>, StakeInfo>)
    requires
        votes.dom().finite(),
        forall|k: Seq<char>| #[trigger] votes.contains_key(k) ==> votes[k] == votes_for(stakes, k),
    ensures
        map_total(votes) == votes_total(stakes, votes.dom()),
    decreases votes.dom().len(),
{
    if votes.dom().len() > 0 {
        let k = votes.dom().choose();
        assert(votes.contains_key(k));
        lemma_counts_are_votes(votes.remove(k), stakes);
        assert(votes.remove(k).dom() =~= votes.dom().remove(k));
    }
}

/// In a pool whose votes are counted, the applicants' counts add up to the
/// number of stakers who have voted.
pub proof fn votes_add_up_to_voters(pool: PoolMetadata)
    requires
        votes_counted(pool),
    ensures
        map_total(pool.instructors_votes@) == voter_count(pool.stake_info@),
{
    lemma_str_map_finite(pool.instructors_votes);
    lemma_str_map_finite(pool.stake_info);
    lemma_counts_are_votes(pool.instructors_votes@, pool.stake_info@);
    lemma_votes_total_is_voters(pool.stake_info@, pool.instructors_votes@.dom());
}

/// The largest count is reached first by the key `first_max` picks: it is
/// one of the keys, and no key has more votes.
pub proof fn lemma_first_max_is_max(votes: Map<Seq<char>, u32>, ks: Seq<Seq<char>>)
    ensures
        ks.len() == 0 <==> first_max(votes, ks) is None,
        first_max(votes, ks) matches Some(k) ==> ks.contains(k) && forall|j: int|
            0 <= j < ks.len() ==> votes[#[trigger] ks[j]] <= votes[k],
    decreases ks.len(),
{
    if ks.len() > 0 {
        let d = ks.drop_last();
        lemma_first_max_is_max(votes, d);
        let k = first_max(votes, ks)->0;
        match first_max(votes, d) {
            None => {
                assert(ks[ks.len() - 1] == k);
            },
            Some(m) => {
                let t = choose|t: int| 0 <= t < d.len() && d[t] == m;
                assert(ks[t] == m);
                assert(ks[ks.len() - 1] == ks.last());
                assert forall|j: int| 0 <= j < ks.len() implies votes[#[trigger] ks[j]] <= votes[k] by {
                    if j < ks.len() - 1 {
                        assert(ks[j] == d[j]);
                    }
                }
            },
        }
    }
}

impl ELearningContract {
    /// Replacing a pool record, or adding one that is then listed, keeps the
    /// invariant.
    proof fn lemma_pools_changed(&self, old: &ELearningContract)
        requires
            old.inv(),
            *self == (ELearningContract {
                pool_metadata_by_pool_id: self.pool_metadata_by_pool_id,
                all_pool_id: self.all_pool_id,
                ..*old
            }),
            all_keyed(self.all_pool_id@, self.pool_metadata_by_pool_id@),
            stakes_accounted(self.pool_metadata_by_pool_id@),
            forall|p: Seq<char>| #[trigger]
                self.pool_metadata_by_pool_id@.contains_key(p) ==> votes_counted(self.pool_metadata_by_pool_id@[p]),
        ensures
            self.inv(),
    {
    }

    /// The contract's owner (the signer) sets the pool contract's account.
    pub fn update_pool_address(&mut self, ctx: &CallContext, pool_address: String) -> (r: Result<(), ContractError>)
        requires
            old(self).inv(),
        ensures
            final(self).inv(),
            r is Ok <==> ctx.signer@ == old(self).owner_id@,
            r matches Err(e) ==> *final(self) == *old(self) && e == ContractError::NoPermission,
            r is Ok ==> *final(self) == (ELearningContract { pool_address, ..*old(self) }),
    {
        if ctx.signer != self.owner_id {
            return Err(ContractError::NoPermission);
        }
        self.pool_address = pool_address;
        Ok(())
    }

    /// The pool's owner (the signer) updates its description and stake
    /// bounds; each field given replaces the stored one.
    pub fn update_pool_request(
        &mut self,
        ctx: &CallContext,
        pool_id: String,
        description: Option<String>,
        maximum_stake: Option<u128>,
        minimum_stake: Option<u128>,
    ) -> (r: Result<(), ContractError>)
        requires
            old(self).inv(),
        ensures
            final(self).inv(),
            ({
                let pools = old(self).pool_metadata_by_pool_id@;
                let p = pool_id@;
                let pool = pools[p];
                let known = pools.contains_key(p);
                let owner = pool.owner_id@ == ctx.signer@;
                &&& r is Ok <==> known && owner
                &&& r matches Err(e) ==> *final(self) == *old(self) && e == if !known {
                    ContractError::PoolMissing
                } else {
                    ContractError::NotPoolOwner
                }
                &&& r is Ok ==> final(self).pool_metadata_by_pool_id@ == pools.insert(
                    p,
                    PoolMetadata {
                        description: if description.is_some() {
                            description
                        } else {
                            pool.description
                        },
                        maximum_stake: match maximum_stake {
                            Some(m) => m,
                            None => pool.maximum_stake,
                        },
                        minimum_stake: match minimum_stake {
                            Some(m) => m,
                            None => pool.minimum_stake,
                        },
                        ..pool
                    },
                ) && *final(self) == (ELearningContract {
                    pool_metadata_by_pool_id: final(self).pool_metadata_by_pool_id,
                    ..*old(self)
                })
            }),
    {
        if !self.pool_metadata_by_pool_id.contains_key(&pool_id) {
            return Err(ContractError::PoolMissing);
        }
        if self.pool_metadata_by_pool_id.get(&pool_id).unwrap().owner_id != ctx.signer {
            return Err(ContractError::NotPoolOwner);
        }
        let ghost s0 = *self;
        let mut pool_request = self.pool_metadata_by_pool_id.remove(&pool_id).unwrap();
        if let Some(a) = description {
            pool_request.description = Some(a);
        }
        if let Some(b) = maximum_stake {
            pool_request.maximum_stake = b;
        }
        if let Some(c) = minimum_stake {
            pool_request.minimum_stake = c;
        }
        let ghost s1 = *self;
        proof {
            assert(s1.pool_metadata_by_pool_id@ == s0.pool_metadata_by_pool_id@.remove(pool_id@));
        }
        self.pool_metadata_by_pool_id.insert(pool_id.clone(), pool_request);
        proof {
            assert(self.pool_metadata_by_pool_id@ =~= s0.pool_metadata_by_pool_id@.insert(
                pool_id@,
                self.pool_metadata_by_pool_id@[pool_id@],
            ));
            assert forall|i: int| 0 <= i < self.all_pool_id@.len() implies self.pool_metadata_by_pool_id@.contains_key(
            #[trigger] self.all_pool_id@[i]) by {
                assert(s0.pool_metadata_by_pool_id@.contains_key(s0.all_pool_id@[i]));
            }
            self.lemma_pools_changed(&s0);
        }
        Ok(())
    }

    /// An instructor (the signer) applies to the pool, with no vote yet.
    pub fn apply_pool(&mut self, ctx: &CallContext, pool_id: String) -> (r: Result<(), ContractError>)
        requires
            old(self).inv(),
        ensures
            final(self).inv(),
            ({
                let users = old(self).user_metadata_by_id@;
                let pools = old(self).pool_metadata_by_pool_id@;
                let (p, s) = (pool_id@, ctx.signer@);
                let pool = pools[p];
                let registered = users.contains_key(s);
                let instructor = users[s].metadata.role == Roles::Instructor;
                let applied = pool.instructors_votes@.contains_key(s);
                &&& r is Ok <==> registered && instructor && pools.contains_key(p) && !applied
                &&& r matches Err(e) ==> *final(self) == *old(self) && e == if !registered {
                    ContractError::NotRegistered
                } else if !instructor {
                    ContractError::NotInstructor
                } else if !pools.contains_key(p) {
                    ContractError::PoolMissing
                } else {
                    ContractError::AlreadyApplied
                }
                &&& r is Ok ==> {
                    let np = final(self).pool_metadata_by_pool_id@[p];
                    &&& final(self).pool_metadata_by_pool_id@ == pools.insert(p, np)
                    &&& np == (PoolMetadata { instructors_votes: np.instructors_votes, ..pool })
                    &&& np.instructors_votes@ == pool.instructors_votes@.insert(s, 0)
                    &&& *final(self) == (ELearningContract {
                        pool_metadata_by_pool_id: final(self).pool_metadata_by_pool_id,
                        ..*old(self)
                    })
                }
            }),
    {
        let instructor_id = &ctx.signer;
        if self.get_user_role(instructor_id)? != Roles::Instructor {
            return Err(ContractError::NotInstructor);
        }
        match self.pool_metadata_by_pool_id.get(&pool_id) {
            None => {
                return Err(ContractError::PoolMissing);
            },
            Some(pool) => {
                if pool.instructors_votes.contains_key(instructor_id) {
                    return Err(ContractError::AlreadyApplied);
                }
            },
        }
        let ghost s0 = *self;
        let mut pool_info = self.pool_metadata_by_pool_id.remove(&pool_id).unwrap();
        pool_info.instructors_votes.insert(instructor_id.clone(), 0);
        proof {
            assert(self.pool_metadata_by_pool_id@ == s0.pool_metadata_by_pool_id@.remove(pool_id@));
        }
        self.pool_metadata_by_pool_id.insert(pool_id.clone(), pool_info);
        proof {
            assert(self.pool_metadata_by_pool_id@ =~= s0.pool_metadata_by_pool_id@.insert(
                pool_id@,
                self.pool_metadata_by_pool_id@[pool_id@],
            ));
            assert forall|i: int| 0 <= i < self.all_pool_id@.len() implies self.pool_metadata_by_pool_id@.contains_key(
            #[trigger] self.all_pool_id@[i]) by {
                assert(s0.pool_metadata_by_pool_id@.contains_key(s0.all_pool_id@[i]));
            }
            let pool0 = s0.pool_metadata_by_pool_id@[pool_id@];
            let np = self.pool_metadata_by_pool_id@[pool_id@];
            assert(votes_counted(pool0));
            lemma_str_map_finite(pool0.stake_info);
            assert forall|q: Seq<char>| #[trigger] pool0.stake_info@.contains_key(q) implies !voted_for(
                pool0.stake_info@[q],
                instructor_id@,
            ) by {
                if voted_for(pool0.stake_info@[q], instructor_id@) {
                    assert(pool0.instructors_votes@.contains_key(instructor_id@));
                }
            }
            lemma_votes_for_none(pool0.stake_info@, instructor_id@);
            assert(votes_counted(np));
            assert forall|q: Seq<char>| #[trigger] self.pool_metadata_by_pool_id@.contains_key(q) implies votes_counted(
                self.pool_metadata_by_pool_id@[q],
            ) by {
                if q != pool_id@ {
                    assert(s0.pool_metadata_by_pool_id@.contains_key(q));
                }
            }
            self.lemma_pools_changed(&s0);
        }
        Ok(())
    }

    /// A staker of the pool (the signer) votes for an instructor who applied;
    /// a staker votes once.
    pub fn vote_instructor(&mut self, ctx: &CallContext, pool_id: String, instructor_id: String) -> (r: Result<
        (),
        ContractError,
    >)
        requires
            old(self).inv(),
        ensures
            final(self).inv(),
            ({
                let pools = old(self).pool_metadata_by_pool_id@;
                let (p, s, i) = (pool_id@, ctx.signer@, instructor_id@);
                let pool = pools[p];
                let known = pools.contains_key(p);
                let staker = pool.stake_info@.contains_key(s);
                let voted = pool.stake_info@[s].voted_for is Some;
                let applied = pool.instructors_votes@.contains_key(i);
                let fits = pool.instructors_votes@[i] < u32::MAX;
                &&& r is Ok <==> known && staker && !voted && applied && fits
                &&& r matches Err(e) ==> *final(self) == *old(self) && e == if !known {
                    ContractError::PoolMissing
                } else if !staker {
                    ContractError::NotStaker
                } else if voted {
                    ContractError::AlreadyVoted
                } else if !applied {
                    ContractError::NotApplied
                } else {
                    ContractError::ArithmeticOverflow
                }
                &&& r is Ok ==> {
                    let np = final(self).pool_metadata_by_pool_id@[p];
                    &&& final(self).pool_metadata_by_pool_id@ == pools.insert(p, np)
                    &&& np == (PoolMetadata {
                        stake_info: np.stake_info,
                        instructors_votes: np.instructors_votes,
                        ..pool
                    })
                    &&& np.stake_info@ == pool.stake_info@.insert(
                        s,
                        StakeInfo { voted_for: Some(instructor_id), ..pool.stake_info@[s] },
                    )
                    &&& np.instructors_votes@ == pool.instructors_votes@.insert(i, (pool.instructors_votes@[i] + 1) as u32)
                    &&& map_total(np.instructors_votes@) == map_total(pool.instructors_votes@) + 1
                    &&& map_total(np.instructors_votes@) == voter_count(np.stake_info@)
                    &&& *final(self) == (ELearningContract {
                        pool_metadata_by_pool_id: final(self).pool_metadata_by_pool_id,
                        ..*old(self)
                    })
                }
            }),
    {
        let staker_id = &ctx.signer;
        if !self.check_pool_request_exist(&pool_id) {
            return Err(ContractError::PoolMissing);
        }
        if !self.check_staker(&pool_id, staker_id) {
            return Err(ContractError::NotStaker);
        }
        let pool = self.pool_metadata_by_pool_id.get(&pool_id).unwrap();
        if pool.stake_info.get(staker_id).unwrap().voted_for.is_some() {
            return Err(ContractError::AlreadyVoted);
        }
        let votes = match pool.instructors_votes.get(&instructor_id) {
            None => {
                return Err(ContractError::NotApplied);
            },
            Some(v) => *v,
        };
        if votes == u32::MAX {
            return Err(ContractError::ArithmeticOverflow);
        }
        let ghost s0 = *self;
        let mut pool_info = self.pool_metadata_by_pool_id.remove(&pool_id).unwrap();
        let mut stake = pool_info.stake_info.remove(staker_id).unwrap();
        stake.voted_for = Some(instructor_id.clone());
        pool_info.stake_info.insert(staker_id.clone(), stake);
        pool_info.instructors_votes.insert(instructor_id, votes + 1);
        proof {
            assert(pool_info.stake_info@ =~= s0.pool_metadata_by_pool_id@[pool_id@].stake_info@.insert(
                staker_id@,
                pool_info.stake_info@[staker_id@],
            ));
            assert(self.pool_metadata_by_pool_id@ == s0.pool_metadata_by_pool_id@.remove(pool_id@));
        }
        self.pool_metadata_by_pool_id.insert(pool_id.clone(), pool_info);
        proof {
            assert(self.pool_metadata_by_pool_id@ =~= s0.pool_metadata_by_pool_id@.insert(
                pool_id@,
                self.pool_metadata_by_pool_id@[pool_id@],
            ));
            assert forall|i: int| 0 <= i < self.all_pool_id@.len() implies self.pool_metadata_by_pool_id@.contains_key(
            #[trigger] self.all_pool_id@[i]) by {
                assert(s0.pool_metadata_by_pool_id@.contains_key(s0.all_pool_id@[i]));
            }
            let pool0 = s0.pool_metadata_by_pool_id@[pool_id@];
            let np = self.pool_metadata_by_pool_id@[pool_id@];
            assert(votes_counted(pool0));
            lemma_str_map_finite(pool0.stake_info);
            assert forall|k: Seq<char>| #[trigger] np.instructors_votes@.contains_key(k) implies np.instructors_votes@[k]
                == votes_for(np.stake_info@, k) by {
                lemma_votes_for_insert(pool0.stake_info@, staker_id@, np.stake_info@[staker_id@], k);
            }
            assert(votes_counted(np));
            assert forall|q: Seq<char>| #[trigger] self.pool_metadata_by_pool_id@.contains_key(q) implies votes_counted(
                self.pool_metadata_by_pool_id@[q],
            ) by {
                if q != pool_id@ {
                    assert(s0.pool_metadata_by_pool_id@.contains_key(q));
                }
            }
            self.lemma_pools_changed(&s0);
            votes_add_up_to_voters(np);
            lemma_str_map_finite(pool0.instructors_votes);
            lemma_map_total_insert(pool0.instructors_votes@, instructor_id@, (votes + 1) as u32);
        }
        Ok(())
    }

    /// The pool's owner (the signer) ends the vote: the pool is deactivated,
    /// and the instructor with the most votes (the first to reach them) wins
    /// where their votes reach two thirds of the stakers, rounded down;
    /// otherwise the winner stays as it was.
    pub fn make_end_stake_process(&mut self, ctx: &CallContext, pool_id: String) -> (r: Result<(), ContractError>)
        requires
            old(self).inv(),
        ensures
            final(self).inv(),
            ({
                let pools = old(self).pool_metadata_by_pool_id@;
                let p = pool_id@;
                let pool = pools[p];
                let known = pools.contains_key(p);
                let owner = pool.owner_id@ == ctx.signer@;
                let votes = pool.instructors_votes@;
                let best = first_max(votes, pool.instructors_votes.key_order());
                let wins = best matches Some(k) && votes[k] >= min_consensus(pool.stake_info@.len());
                &&& r is Ok <==> known && owner
                &&& r matches Err(e) ==> *final(self) == *old(self) && e == if !known {
                    ContractError::PoolMissing
                } else {
                    ContractError::NotPoolOwner
                }
                &&& r is Ok ==> {
                    let np = final(self).pool_metadata_by_pool_id@[p];
                    &&& final(self).pool_metadata_by_pool_id@ == pools.insert(p, np)
                    &&& np == (PoolMetadata { pool_state: PoolState::DEACTIVED, winner: np.winner, ..pool })
                    &&& if wins {
                        np.winner is Some && best == Some(np.winner->0@)
                    } else {
                        np.winner == pool.winner
                    }
                    &&& *final(self) == (ELearningContract {
                        pool_metadata_by_pool_id: final(self).pool_metadata_by_pool_id,
                        ..*old(self)
                    })
                }
            }),
    {
        if !self.check_pool_request_exist(&pool_id) {
            return Err(ContractError::PoolMissing);
        }
        let pool = self.pool_metadata_by_pool_id.get(&pool_id).unwrap();
        if pool.owner_id != ctx.signer {
            return Err(ContractError::NotPoolOwner);
        }
        let keys = pool.instructors_votes.keys();
        let ghost ks = pool.instructors_votes.key_order();
        let ghost votes = pool.instructors_votes@;
        let mut max_value: Option<u32> = None;
        let mut max_keys: Option<String> = None;
        let mut j: usize = 0;
        while j < keys.len()
            invariant
                j <= keys.len(),
                views_of(keys@) == ks,
                votes == pool.instructors_votes@,
                forall|q: Seq<char>| votes.contains_key(q) <==> #[trigger] ks.contains(q),
                max_keys is Some <==> first_max(votes, ks.take(j as int)) is Some,
                max_value is Some <==> max_keys is Some,
                max_keys matches Some(k) ==> first_max(votes, ks.take(j as int)) == Some(k@) && max_value
                    == Some(votes[k@]),
            decreases keys.len() - j,
        {
            let key = &keys[j];
            proof {
                assert(ks[j as int] == key@);
                assert(ks.contains(key@));
                assert(ks.take(j + 1).drop_last() =~= ks.take(j as int));
                assert(ks.take(j + 1).last() == key@);
            }
            let value = *pool.instructors_votes.get(key).unwrap();
            let better = match max_value {
                None => true,
                Some(current_max) => value > current_max,
            };
            if better {
                max_keys = Some(key.clone());
                max_value = Some(value);
            }
            j = j + 1;
        }
        proof {
            assert(ks.take(keys.len() as int) =~= ks);
        }
        let stakers = pool.stake_info.len();
        let min_consensus_value = ((stakers as u128) * 2 / 3) as u32;
        let ghost s0 = *self;
        let mut pool_info = self.pool_metadata_by_pool_id.remove(&pool_id).unwrap();
        if max_keys.is_some() && max_value.unwrap() >= min_consensus_value {
            pool_info.winner = max_keys;
        }
        pool_info.pool_state = PoolState::DEACTIVED;
        proof {
            assert(self.pool_metadata_by_pool_id@ == s0.pool_metadata_by_pool_id@.remove(pool_id@));
        }
        self.pool_metadata_by_pool_id.insert(pool_id.clone(), pool_info);
        proof {
            assert(self.pool_metadata_by_pool_id@ =~= s0.pool_metadata_by_pool_id@.insert(
                pool_id@,
                self.pool_metadata_by_pool_id@[pool_id@],
            ));
            assert forall|i: int| 0 <= i < self.all_pool_id@.len() implies self.pool_metadata_by_pool_id@.contains_key(
            #[trigger] self.all_pool_id@[i]) by {
                assert(s0.pool_metadata_by_pool_id@.contains_key(s0.all_pool_id@[i]));
            }
            self.lemma_pools_changed(&s0);
        }
        Ok(())
    }

    /// Called by the pool contract when the signer stakes `amount`
    /// yoctoNEAR: where the signer is registered and the pool exists and is
    /// not closed, the amount is added to the signer's stake (a new stake is
    /// made now, with no vote) and to the pool's current and total stake, and
    /// the answer is 1; otherwise nothing changes and the answer is 2.
    pub fn stake_process(&mut self, ctx: &CallContext, pool_id: String, amount: u128) -> (r: Result<
        u128,
        ContractError,
    >)
        requires
            old(self).inv(),
        ensures
            final(self).inv(),
            ({
                let pools = old(self).pool_metadata_by_pool_id@;
                let (p, s) = (pool_id@, ctx.signer@);
                let pool = pools[p];
                let stakes = pool.stake_info@;
                let caller_ok = old(self).pool_address@ == ctx.predecessor@;
                let eligible = old(self).user_metadata_by_id@.contains_key(s) && pools.contains_key(p)
                    && pool.pool_state != PoolState::CLOSED;
                let fits = pool.current_stake + amount <= u128::MAX && pool.total_stake + amount <= u128::MAX
                    && (stakes.contains_key(s) ==> stakes[s].stake_value + amount <= u128::MAX);
                &&& r is Ok <==> caller_ok && (eligible ==> fits)
                &&& r matches Err(e) ==> *final(self) == *old(self) && e == if !caller_ok {
                    ContractError::NoPermission
                } else {
                    ContractError::ArithmeticOverflow
                }
                &&& r matches Ok(v) ==> v == if eligible {
                    1u128
                } else {
                    2u128
                }
                &&& r is Ok && !eligible ==> *final(self) == *old(self)
                &&& r is Ok && eligible ==> {
                    let np = final(self).pool_metadata_by_pool_id@[p];
                    &&& final(self).pool_metadata_by_pool_id@ == pools.insert(p, np)
                    &&& np == (PoolMetadata {
                        stake_info: np.stake_info,
                        current_stake: (pool.current_stake + amount) as u128,
                        total_stake: (pool.total_stake + amount) as u128,
                        ..pool
                    })
                    &&& np.stake_info@ == stakes.insert(
                        s,
                        if stakes.contains_key(s) {
                            StakeInfo { stake_value: (stakes[s].stake_value + amount) as u128, ..stakes[s] }
                        } else {
                            StakeInfo {
                                staker_id: ctx.signer,
                                stake_value: amount,
                                stake_at: ctx.block_timestamp_ms,
                                voted_for: None,
                            }
                        },
                    )
                    &&& *final(self) == (ELearningContract {
                        pool_metadata_by_pool_id: final(self).pool_metadata_by_pool_id,
                        ..*old(self)
                    })
                }
            }),
    {
        if self.pool_address != ctx.predecessor {
            return Err(ContractError::NoPermission);
        }
        let staker = &ctx.signer;
        let value = amount;
        if self.check_registration(staker) && self.check_pool_request_exist(&pool_id)
            && self.pool_metadata_by_pool_id.get(&pool_id).unwrap().pool_state != PoolState::CLOSED {
            let pool = self.pool_metadata_by_pool_id.get(&pool_id).unwrap();
            if pool.current_stake > u128::MAX - value || pool.total_stake > u128::MAX - value {
                return Err(ContractError::ArithmeticOverflow);
            }
            if let Some(info) = pool.stake_info.get(staker) {
                if info.stake_value > u128::MAX - value {
                    return Err(ContractError::ArithmeticOverflow);
                }
            }
            let ghost s0 = *self;
            let mut pool_info = self.pool_metadata_by_pool_id.remove(&pool_id).unwrap();
            if !pool_info.stake_info.contains_key(staker) {
                let stake_info = StakeInfo {
                    staker_id: staker.clone(),
                    stake_value: value,
                    stake_at: ctx.block_timestamp_ms,
                    voted_for: None,
                };
                pool_info.stake_info.insert(staker.clone(), stake_info);
            } else {
                let mut info = pool_info.stake_info.remove(staker).unwrap();
                info.stake_value = info.stake_value + value;
                pool_info.stake_info.insert(staker.clone(), info);
                proof {
                    assert(pool_info.stake_info@ =~= s0.pool_metadata_by_pool_id@[pool_id@].stake_info@.insert(
                        staker@,
                        pool_info.stake_info@[staker@],
                    ));
                }
            }
            pool_info.current_stake = pool_info.current_stake + value;
            pool_info.total_stake = pool_info.total_stake + value;
            proof {
                assert(self.pool_metadata_by_pool_id@ == s0.pool_metadata_by_pool_id@.remove(pool_id@));
            }
            self.pool_metadata_by_pool_id.insert(pool_id.clone(), pool_info);
            proof {
                assert(self.pool_metadata_by_pool_id@ =~= s0.pool_metadata_by_pool_id@.insert(
                    pool_id@,
                    self.pool_metadata_by_pool_id@[pool_id@],
                ));
                assert forall|i: int| 0 <= i < self.all_pool_id@.len() implies self.pool_metadata_by_pool_id@.contains_key(
                #[trigger] self.all_pool_id@[i]) by {
                    assert(s0.pool_metadata_by_pool_id@.contains_key(s0.all_pool_id@[i]));
                }
                let pool0 = s0.pool_metadata_by_pool_id@[pool_id@];
                let np = self.pool_metadata_by_pool_id@[pool_id@];
                assert(votes_counted(pool0));
                lemma_str_map_finite(pool0.stake_info);
                assert forall|k: Seq<char>| #[trigger] np.instructors_votes@.contains_key(k) implies np.instructors_votes@[k]
                    == votes_for(np.stake_info@, k) by {
                    lemma_votes_for_insert(pool0.stake_info@, staker@, np.stake_info@[staker@], k);
                }
                assert(votes_counted(np));
                assert forall|q: Seq<char>| #[trigger] self.pool_metadata_by_pool_id@.contains_key(q) implies votes_counted(
                    self.pool_metadata_by_pool_id@[q],
                ) by {
                    if q != pool_id@ {
                        assert(s0.pool_metadata_by_pool_id@.contains_key(q));
                    }
                }
                self.lemma_pools_changed(&s0);
            }
            Ok(1)
        } else {
            Ok(2)
        }
    }

    /// Whether the staker may withdraw from the pool: whether they hold a stake in it.
    pub fn check_withdrawal_availability(&self, pool_id: &String, staker_id: &String) -> (b: bool)
        requires
            self.pool_metadata_by_pool_id@.contains_key(pool_id@),
        ensures
            b == self.pool_metadata_by_pool_id@[pool_id@].stake_info@.contains_key(staker_id@),
    {
        if !self.check_staker(pool_id, staker_id) {
            return false;
        }
        true
    }

    /// A registered staker (the signer) of an active pool asks the pool
    /// contract to refund their whole stake; `remove_stake_info` then records
    /// the withdrawal. The caller is answered 1.
    pub fn unstake(&self, ctx: &CallContext, pool_id: String) -> (r: Result<CrossCall, ContractError>)
        ensures
            ({
                let pools = self.pool_metadata_by_pool_id@;
                let (p, s) = (pool_id@, ctx.signer@);
                let pool = pools[p];
                let registered = self.user_metadata_by_id@.contains_key(s);
                let known = pools.contains_key(p);
                let active = pool.pool_state == PoolState::ACTIVE;
                let staker = pool.stake_info@.contains_key(s);
                &&& r is Ok <==> registered && known && active && staker
                &&& r matches Err(e) ==> e == if !registered {
                    ContractError::NotRegistered
                } else if !known {
                    ContractError::PoolMissing
                } else if !active {
                    ContractError::PoolInactive
                } else {
                    ContractError::WithdrawNotAllowed
                }
                &&& r matches Ok(c) ==> c.pool_address == self.pool_address && c.call == (PoolCall::Refund {
                    amount: pool.stake_info@[s].stake_value,
                }) && c.callback == (Callback::RemoveStakeInfo {
                    pool_id,
                    staker_id: ctx.signer,
                    amount: pool.stake_info@[s].stake_value,
                })
            }),
    {
        let unstaker_id = &ctx.signer;
        if !self.check_registration(unstaker_id) {
            return Err(ContractError::NotRegistered);
        }
        if !self.check_pool_request_exist(&pool_id) {
            return Err(ContractError::PoolMissing);
        }
        if self.pool_metadata_by_pool_id.get(&pool_id).unwrap().pool_state != PoolState::ACTIVE {
            return Err(ContractError::PoolInactive);
        }
        if !self.check_withdrawal_availability(&pool_id, unstaker_id) {
            return Err(ContractError::WithdrawNotAllowed);
        }
        let amount = self.pool_metadata_by_pool_id.get(&pool_id).unwrap().stake_info.get(unstaker_id).unwrap().stake_value;
        Ok(
            CrossCall {
                pool_address: self.pool_address.clone(),
                call: PoolCall::Refund { amount },
                callback: Callback::RemoveStakeInfo { pool_id, staker_id: unstaker_id.clone(), amount },
            },
        )
    }

    /// Callback of `unstake`: where the pool contract refunded (status 1), the
    /// withdrawal of `amount` is recorded now, the staker's vote (if any) is
    /// taken back, their stake is removed and the pool's current stake falls
    /// by `amount`.
    pub fn remove_stake_info(
        &mut self,
        ctx: &CallContext,
        pool_id: String,
        staker_id: String,
        amount: u128,
        outcome: &PromiseOutcome,
    ) -> (r: Result<(), ContractError>)
        requires
            old(self).inv(),
        ensures
            final(self).inv(),
            ({
                let pools = old(self).pool_metadata_by_pool_id@;
                let (p, s) = (pool_id@, staker_id@);
                let pool = pools[p];
                let stakes = pool.stake_info@;
                let votes = pool.instructors_votes@;
                let refunded = !(*outcome is NotReady) && promise_status_spec(*outcome) == 1;
                let known = pools.contains_key(p);
                let staker = stakes.contains_key(s);
                let vote = stakes[s].voted_for;
                let vote_ok = vote matches Some(v) ==> votes.contains_key(v@) && votes[v@] >= 1;
                let fits = pool.current_stake >= amount;
                &&& r is Ok <==> !(*outcome is NotReady) && (refunded ==> known && staker && vote_ok && fits)
                &&& r matches Err(e) ==> *final(self) == *old(self) && e == if *outcome is NotReady {
                    ContractError::PromiseNotReady
                } else if !known {
                    ContractError::PoolMissing
                } else if !staker {
                    ContractError::NotStaker
                } else if !(vote matches Some(v) ==> votes.contains_key(v@)) {
                    ContractError::NotApplied
                } else {
                    ContractError::ArithmeticOverflow
                }
                &&& r is Ok && !refunded ==> *final(self) == *old(self)
                &&& r is Ok && refunded ==> {
                    let np = final(self).pool_metadata_by_pool_id@[p];
                    &&& final(self).pool_metadata_by_pool_id@ == pools.insert(p, np)
                    &&& np == (PoolMetadata {
                        unstake_info: np.unstake_info,
                        instructors_votes: np.instructors_votes,
                        stake_info: np.stake_info,
                        current_stake: (pool.current_stake - amount) as u128,
                        ..pool
                    })
                    &&& np.unstake_info@ == pool.unstake_info@.insert(
                        s,
                        UnstakeInfo { staker_id, unstake_value: amount, unstake_at: ctx.block_timestamp_ms },
                    )
                    &&& np.stake_info@ == stakes.remove(s)
                    &&& np.instructors_votes@ == match vote {
                        Some(v) => votes.insert(v@, (votes[v@] - 1) as u32),
                        None => votes,
                    }
                    &&& *final(self) == (ELearningContract {
                        pool_metadata_by_pool_id: final(self).pool_metadata_by_pool_id,
                        ..*old(self)
                    })
                }
            }),
    {
        let result = promise_status(outcome)?;
        if result == 1 {
            let pool = match self.pool_metadata_by_pool_id.get(&pool_id) {
                None => {
                    return Err(ContractError::PoolMissing);
                },
                Some(pool) => pool,
            };
            let vote = match pool.stake_info.get(&staker_id) {
                None => {
                    return Err(ContractError::NotStaker);
                },
                Some(info) => &info.voted_for,
            };
            if let Some(v) = vote {
                match pool.instructors_votes.get(v) {
                    None => {
                        return Err(ContractError::NotApplied);
                    },
                    Some(count) => {
                        if *count == 0 {
                            return Err(ContractError::ArithmeticOverflow);
                        }
                    },
                }
            }
            if pool.current_stake < amount {
                return Err(ContractError::ArithmeticOverflow);
            }
            let ghost s0 = *self;
            let mut pool_info = self.pool_metadata_by_pool_id.remove(&pool_id).unwrap();
            let unstake_info = UnstakeInfo {
                staker_id: staker_id.clone(),
                unstake_value: amount,
                unstake_at: ctx.block_timestamp_ms,
            };
            pool_info.unstake_info.insert(staker_id.clone(), unstake_info);
            let info = pool_info.stake_info.remove(&staker_id).unwrap();
            if let Some(v) = info.voted_for {
                let count = *pool_info.instructors_votes.get(&v).unwrap();
                pool_info.instructors_votes.insert(v, count - 1);
            }
            pool_info.current_stake = pool_info.current_stake - amount;
            proof {
                assert(self.pool_metadata_by_pool_id@ == s0.pool_metadata_by_pool_id@.remove(pool_id@));
            }
            self.pool_metadata_by_pool_id.insert(pool_id.clone(), pool_info);
            proof {
                assert(self.pool_metadata_by_pool_id@ =~= s0.pool_metadata_by_pool_id@.insert(
                    pool_id@,
                    self.pool_metadata_by_pool_id@[pool_id@],
                ));
                assert forall|i: int| 0 <= i < self.all_pool_id@.len() implies self.pool_metadata_by_pool_id@.contains_key(
                #[trigger] self.all_pool_id@[i]) by {
                    assert(s0.pool_metadata_by_pool_id@.contains_key(s0.all_pool_id@[i]));
                }
                let pool0 = s0.pool_metadata_by_pool_id@[pool_id@];
                let np = self.pool_metadata_by_pool_id@[pool_id@];
                assert(votes_counted(pool0));
                lemma_str_map_finite(pool0.stake_info);
                assert forall|k: Seq<char>| #[trigger] np.instructors_votes@.contains_key(k) implies np.instructors_votes@[k]
                    == votes_for(np.stake_info@, k) by {
                    lemma_votes_for_remove(pool0.stake_info@, staker_id@, k);
                }
                assert(votes_counted(np));
                assert forall|q: Seq<char>| #[trigger] self.pool_metadata_by_pool_id@.contains_key(q) implies votes_counted(
                    self.pool_metadata_by_pool_id@[q],
                ) by {
                    if q != pool_id@ {
                        assert(s0.pool_metadata_by_pool_id@.contains_key(q));
                    }
                }
                self.lemma_pools_changed(&s0);
            }
        }
        Ok(())
    }

    /// The pools on one page (default 20 per page).
    pub fn get_all_pool_metadata(&self, start: Option<u32>, limit: Option<u32>) -> (r: Vec<&PoolMetadata>)
        requires
            self.inv(),
        ensures
            ({
                let ids = page_of(self.all_pool_id@, start_or_zero(start), limit_or(limit, 20));
                &&& r@.len() == ids.len()
                &&& forall|i: int| 0 <= i < ids.len() ==> *r@[i] == self.pool_metadata_by_pool_id@[ids[i]]
            }),
    {
        let set = &self.all_pool_id;
        let (first, end) = page_bounds(set.len(), start, limit, 20);
        let ghost ids = page_of(set@, start_or_zero(start), limit_or(limit, 20));
        let mut r: Vec<&PoolMetadata> = Vec::new();
        let mut i = first;
        while i < end
            invariant
                first <= i <= end <= set@.len(),
                ids.len() == end - first,
                forall|j: int| 0 <= j < ids.len() ==> ids[j] == set@[first + j],
                all_keyed(set@, self.pool_metadata_by_pool_id@),
                r@.len() == i - first,
                forall|j: int| 0 <= j < i - first ==> *r@[j] == self.pool_metadata_by_pool_id@[ids[j]],
            decreases end - i,
        {
            let id = set.get(i);
            assert(self.pool_metadata_by_pool_id@.contains_key(set@[i as int]));
            r.push(self.pool_metadata_by_pool_id.get(id).unwrap());
            i = i + 1;
        }
        r
    }

    /// The pool ids on one page (default 20 per page).
    pub fn get_all_pool_id(&self, start: Option<u32>, limit: Option<u32>) -> (r: Vec<String>)
        ensures
            views_of(r@) == page_of(self.all_pool_id@, start_or_zero(start), limit_or(limit, 20)),
    {
        let set = &self.all_pool_id;
        let (first, end) = page_bounds(set.len(), start, limit, 20);
        let ghost ids = page_of(set@, start_or_zero(start), limit_or(limit, 20));
        let mut r: Vec<String> = Vec::new();
        let mut i = first;
        while i < end
            invariant
                first <= i <= end <= set@.len(),
                ids.len() == end - first,
                forall|j: int| 0 <= j < ids.len() ==> ids[j] == set@[first + j],
                r@.len() == i - first,
                forall|j: int| 0 <= j < i - first ==> #[trigger] r@[j]@ == ids[j],
            decreases end - i,
        {
            r.push(set.get(i).clone());
            i = i + 1;
        }
        assert(views_of(r@) =~= ids);
        r
    }

    /// The pool's record, if any.
    pub fn get_pool_metadata_by_pool_id(&self, pool_id: &String) -> (r: Option<&PoolMetadata>)
        ensures
            match r {
                Some(p) => self.pool_metadata_by_pool_id@.contains_key(pool_id@) && *p
                    == self.pool_metadata_by_pool_id@[pool_id@],
                None => !self.pool_metadata_by_pool_id@.contains_key(pool_id@),
            },
    {
        self.pool_metadata_by_pool_id.get(pool_id)
    }

    /// Whether the pool has a record.
    pub fn check_pool_request_exist(&self, pool_id: &String) -> (b: bool)
        ensures
            b == self.pool_metadata_by_pool_id@.contains_key(pool_id@),
    {
        self.pool_metadata_by_pool_id.contains_key(pool_id)
    }

    /// Whether `user_id` has a stake in the pool.
    pub fn check_staker(&self, pool_id: &String, user_id: &String) -> (b: bool)
        requires
            self.pool_metadata_by_pool_id@.contains_key(pool_id@),
        ensures
            b == self.pool_metadata_by_pool_id@[pool_id@].stake_info@.contains_key(user_id@),
    {
        self.pool_metadata_by_pool_id.get(pool_id).unwrap().stake_info.contains_key(user_id)
    }

    /// A registered user (the signer) asks for a pool with the given title:
    /// the pool contract records its id, then `storage_pool_request` stores
    /// the pool.
    pub fn create_pool_request(
        &self,
        ctx: &CallContext,
        pool_title: String,
        minimum_stake: u128,
        maximum_stake: u128,
    ) -> (r: Result<CrossCall, ContractError>)
        ensures
            ({
                let id = pool_id_spec(pool_title@);
                let registered = self.user_metadata_by_id@.contains_key(ctx.signer@);
                let exists = self.pool_metadata_by_pool_id@.contains_key(id);
                &&& r is Ok <==> registered && !exists
                &&& r matches Err(e) ==> e == if !registered {
                    ContractError::NotRegistered
                } else {
                    ContractError::PoolExists
                }
                &&& r matches Ok(c) ==> c.pool_address == self.pool_address && (c.call matches PoolCall::AddPoolId {
                    pool_id,
                } && pool_id@ == id) && (c.callback matches Callback::StoragePoolRequest {
                    pool_id,
                    minimum_stake: lo,
                    maximum_stake: hi,
                } && pool_id@ == id && lo == minimum_stake && hi == maximum_stake)
            }),
    {
        if !self.check_registration(&ctx.signer) {
            return Err(ContractError::NotRegistered);
        }
        let pool_id = convert_pool_title_to_pool_id(pool_title.as_str());
        if self.check_pool_request_exist(&pool_id) {
            return Err(ContractError::PoolExists);
        }
        Ok(
            CrossCall {
                pool_address: self.pool_address.clone(),
                call: PoolCall::AddPoolId { pool_id: pool_id.clone() },
                callback: Callback::StoragePoolRequest { pool_id, minimum_stake, maximum_stake },
            },
        )
    }

    /// Callback of `create_pool_request`: where the pool contract recorded the
    /// id (status 1), stores an active pool owned by the signer, created now,
    /// with no stake and the standard staking periods. An existing record with
    /// the same id is replaced.
    pub fn storage_pool_request(
        &mut self,
        ctx: &CallContext,
        pool_id: String,
        minimum_stake: u128,
        maximum_stake: u128,
        outcome: &PromiseOutcome,
    ) -> (r: Result<(), ContractError>)
        requires
            old(self).inv(),
        ensures
            final(self).inv(),
            r is Ok <==> !(*outcome is NotReady),
            r matches Err(e) ==> *final(self) == *old(self) && e == ContractError::PromiseNotReady,
            r is Ok && promise_status_spec(*outcome) != 1 ==> *final(self) == *old(self),
            r is Ok && promise_status_spec(*outcome) == 1 ==> {
                let np = final(self).pool_metadata_by_pool_id@[pool_id@];
                &&& final(self).pool_metadata_by_pool_id@ == old(self).pool_metadata_by_pool_id@.insert(pool_id@, np)
                &&& new_pool_record(np, pool_id@, ctx.signer@, ctx.block_timestamp_ms, minimum_stake, maximum_stake)
                &&& final(self).all_pool_id@ == if old(self).all_pool_id@.contains(pool_id@) {
                    old(self).all_pool_id@
                } else {
                    old(self).all_pool_id@.push(pool_id@)
                }
                &&& *final(self) == (ELearningContract {
                    pool_metadata_by_pool_id: final(self).pool_metadata_by_pool_id,
                    all_pool_id: final(self).all_pool_id,
                    ..*old(self)
                })
            },
    {
        let result = promise_status(outcome)?;
        if result == 1 {
            let pool_metadata = PoolMetadata {
                pool_id: pool_id.clone(),
                owner_id: ctx.signer.clone(),
                create_at: ctx.block_timestamp_ms,
                pool_state: PoolState::ACTIVE,
                total_stake: 0,
                current_stake: 0,
                minimum_stake,
                maximum_stake,
                staking_period: STAKING_PERIOD_MS,
                unstaking_period: UNSTAKING_PERIOD_MS,
                instructors_votes: StrMap::new(),
                winner: None,
                stake_info: StrMap::new(),
                unstake_info: StrMap::new(),
                description: None,
            };
            let ghost s0 = *self;
            self.all_pool_id.insert(pool_id.clone());
            self.pool_metadata_by_pool_id.insert(pool_id, pool_metadata);
            proof {
                assert forall|i: int| 0 <= i < self.all_pool_id@.len() implies self.pool_metadata_by_pool_id@.contains_key(
                #[trigger] self.all_pool_id@[i]) by {
                    if i < s0.all_pool_id@.len() {
                        assert(self.all_pool_id@[i] == s0.all_pool_id@[i]);
                        assert(s0.pool_metadata_by_pool_id@.contains_key(s0.all_pool_id@[i]));
                    }
                }
                self.lemma_pools_changed(&s0);
            }
        }
        Ok(())
    }
}

} // verus!
