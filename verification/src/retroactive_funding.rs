//! Retroactive public goods funding: funding rounds with a token pool,
//! weighted votes for nominated creators, and rewards in proportion to
//! impact scores built from tips received and votes.

use vstd::prelude::*;

use crate::contract::{list_contains, TipJarContract};
use crate::ledger::{copy_list, div_i128, fits, lemma_tdiv_nonneg, tdiv, Address, Transfer};
use crate::math::{floor_sqrt, is_floor_sqrt, isqrt, lemma_floor_sqrt_is};
use crate::table::Table;

verus! {

/// Status of a retroactive funding round.
#[derive(Clone, Copy, PartialEq, Eq, Structural, Debug)]
pub enum RetroRoundStatus {
    /// Accepting nominations and votes.
    Active,
    /// Voting closed; rewards can be claimed.
    Finalized,
    /// All rewards distributed.
    Distributed,
}

/// Evaluation criteria weights (basis points, must sum to 10 000).
#[derive(Clone, Copy, PartialEq, Eq, Structural, Debug)]
pub struct EvalCriteria {
    /// Weight given to total historical tips received (bps).
    pub tips_weight_bps: u32,
    /// Weight given to number of tips received (bps).
    pub tip_count_weight_bps: u32,
    /// Weight given to raw voter votes (bps).
    pub vote_weight_bps: u32,
}

/// A retroactive funding round.
#[derive(Clone, Copy, PartialEq, Eq, Structural, Debug)]
pub struct RetroRound {
    pub round_id: u64,
    pub admin: Address,
    pub token: Address,
    /// Total reward pool deposited by admin.
    pub reward_pool: i128,
    /// Voting opens at this timestamp.
    pub start_time: u64,
    /// Voting closes at this timestamp.
    pub end_time: u64,
    pub status: RetroRoundStatus,
    pub criteria: EvalCriteria,
    /// Total vote weight cast across all creators.
    pub total_votes: i128,
}

/// A single vote record.
#[derive(Clone, Copy, PartialEq, Eq, Structural, Debug)]
pub struct RetroVote {
    pub voter: Address,
    pub creator: Address,
    pub round_id: u64,
    /// Vote weight (the integer square root of the voter's own tips, at least 1).
    pub weight: i128,
}

#[derive(Clone, Copy, PartialEq, Eq, Structural, Debug)]
pub enum RetroError {
    RoundNotFound,
    RoundNotActive,
    RoundNotFinalized,
    AlreadyDistributed,
    RoundEnded,
    RoundNotEnded,
    AlreadyVoted,
    InvalidAmount,
    Unauthorized,
    CreatorNotNominated,
    AlreadyClaimed,
    NothingToClaim,
    InvalidCriteria,
}

/// The impact score of a creator: tips, tip count and votes weighted by the
/// criteria, the count and the votes scaled by 1 000 000 to compare with
/// token amounts, over 10 000.
pub open spec fn impact_score(criteria: EvalCriteria, total_tips: int, tip_count: int, votes: int) -> int {
    tdiv(
        total_tips * criteria.tips_weight_bps + tip_count * 1_000_000 * criteria.tip_count_weight_bps + votes
            * 1_000_000 * criteria.vote_weight_bps,
        10000,
    )
}

/// [`impact_score`] can be computed on `i128` without a fault.
pub open spec fn impact_computable(criteria: EvalCriteria, total_tips: int, tip_count: int, votes: int) -> bool {
    let a = total_tips * criteria.tips_weight_bps;
    let b = tip_count * 1_000_000 * criteria.tip_count_weight_bps;
    let c = votes * 1_000_000 * criteria.vote_weight_bps;
    &&& fits(a)
    &&& fits(tip_count * 1_000_000)
    &&& fits(b)
    &&& fits(votes * 1_000_000)
    &&& fits(c)
    &&& fits(a + b)
    &&& fits(a + b + c)
}

/// The score of `creator` in `round` from the tip records and the votes cast.
pub open spec fn score_of(round: RetroRound, tips: TipJarContract, votes: int, creator: Address) -> int {
    impact_score(
        round.criteria,
        tips.total_of(creator, round.token) as int,
        tips.tip_count_of(creator) as int,
        votes,
    )
}

/// Score of the nominated creators, summed.
pub open spec fn score_sum(creators: Seq<Address>, round: RetroRound, tips: TipJarContract, funding: RetroFunding, round_id: u64) -> int
    decreases creators.len(),
{
    if creators.len() == 0 {
        0
    } else {
        score_sum(creators.drop_last(), round, tips, funding, round_id) + score_of(
            round,
            tips,
            funding.votes_of(round_id, creators.last()) as int,
            creators.last(),
        )
    }
}

/// Every partial sum of the scores of `creators` stays within `i128`.
pub open spec fn score_sums_fit(creators: Seq<Address>, round: RetroRound, tips: TipJarContract, funding: RetroFunding, round_id: u64) -> bool
    decreases creators.len(),
{
    if creators.len() == 0 {
        true
    } else {
        &&& score_sums_fit(creators.drop_last(), round, tips, funding, round_id)
        &&& impact_computable(
            round.criteria,
            tips.total_of(creators.last(), round.token) as int,
            tips.tip_count_of(creators.last()) as int,
            funding.votes_of(round_id, creators.last()) as int,
        )
        &&& fits(score_sum(creators, round, tips, funding, round_id))
    }
}

/// The vote weight of a voter whose own tips in the round's token total
/// `tips`: the integer square root of the tips, at least 1.
pub open spec fn vote_weight(tips: int) -> int {
    if tips <= 0 {
        1
    } else if floor_sqrt(tips) > 1 {
        floor_sqrt(tips)
    } else {
        1
    }
}

/// The vote weight gathered by `creators` in round `round_id`, summed.
pub open spec fn vote_sum(funding: RetroFunding, creators: Seq<Address>, round_id: u64) -> int
    decreases creators.len(),
{
    if creators.len() == 0 {
        0
    } else {
        vote_sum(funding, creators.drop_last(), round_id) + funding.votes_of(round_id, creators.last())
    }
}

/// Sums over the same creators agree where their votes agree.
proof fn lemma_vote_sum_same(a: RetroFunding, b: RetroFunding, creators: Seq<Address>, round_id: u64)
    requires
        forall|c: Address| creators.contains(c) ==> #[trigger] a.votes_of(round_id, c) == b.votes_of(round_id, c),
    ensures
        vote_sum(a, creators, round_id) == vote_sum(b, creators, round_id),
    decreases creators.len(),
{
    if creators.len() > 0 {
        let p = creators.drop_last();
        assert forall|c: Address| p.contains(c) implies #[trigger] a.votes_of(round_id, c) == b.votes_of(round_id, c) by {
            let i = choose|i: int| 0 <= i < p.len() && p[i] == c;
            assert(creators[i] == c);
        }
        assert(creators.contains(creators.last())) by {
            assert(creators[creators.len() - 1] == creators.last());
        }
        lemma_vote_sum_same(a, b, p, round_id);
    }
}

/// Raising one creator's votes by `w` raises the sum by `w` if the creator
/// is among `creators` (listed once), and leaves it as it was otherwise.
proof fn lemma_vote_sum_add(a: RetroFunding, b: RetroFunding, creators: Seq<Address>, round_id: u64, x: Address, w: int)
    requires
        creators.no_duplicates(),
        b.votes_of(round_id, x) == a.votes_of(round_id, x) + w,
        forall|c: Address| c != x ==> #[trigger] b.votes_of(round_id, c) == a.votes_of(round_id, c),
    ensures
        vote_sum(b, creators, round_id) == vote_sum(a, creators, round_id) + if creators.contains(x) {
            w
        } else {
            0
        },
    decreases creators.len(),
{
    if creators.len() > 0 {
        let p = creators.drop_last();
        assert(p.no_duplicates()) by {
            assert forall|i: int, j: int| 0 <= i < p.len() && 0 <= j < p.len() && i != j implies p[i] != p[j] by {
                assert(creators[i] == p[i] && creators[j] == p[j]);
            }
        }
        lemma_vote_sum_add(a, b, p, round_id, x, w);
        let last = creators.last();
        assert(creators[creators.len() - 1] == last);
        if last == x {
            assert(!p.contains(x)) by {
                if p.contains(x) {
                    let i = choose|i: int| 0 <= i < p.len() && p[i] == x;
                    assert(creators[i] == creators[creators.len() - 1]);
                }
            }
            assert(creators.contains(x));
        } else {
            assert(creators.contains(x) == p.contains(x)) by {
                if creators.contains(x) {
                    let i = choose|i: int| 0 <= i < creators.len() && creators[i] == x;
                    assert(i < creators.len() - 1);
                    assert(p[i] == x);
                }
                if p.contains(x) {
                    let i = choose|i: int| 0 <= i < p.len() && p[i] == x;
                    assert(creators[i] == x);
                }
            }
        }
    }
}

/// The records of the funding rounds.
pub struct RetroFunding {
    rounds: Table<u64, RetroRound>,
    round_ctr: u64,
    votes: Table<(u64, Address, Address), RetroVote>,
    creator_votes: Table<(u64, Address), i128>,
    round_creators: Table<u64, Vec<Address>>,
    has_voted: Table<(u64, Address), bool>,
    claimed: Table<(u64, Address), bool>,
}

impl RetroFunding {
    pub closed spec fn wf(&self) -> bool {
        &&& self.rounds.wf()
        &&& self.votes.wf()
        &&& self.creator_votes.wf()
        &&& self.round_creators.wf()
        &&& self.has_voted.wf()
        &&& self.claimed.wf()
        &&& forall|r: u64, c: Address| #[trigger] self.votes_of(r, c) >= 0
        &&& forall|r: u64| #[trigger] self.creators_of(r).no_duplicates()
        &&& forall|r: u64| #[trigger] self.rounds@.contains_key(r) ==> self.rounds@[r].reward_pool > 0
        &&& forall|r: u64| #[trigger] self.rounds@.contains_key(r) ==> r < self.round_ctr
            && self.rounds@[r].total_votes == vote_sum(*self, self.creators_of(r), r)
        &&& forall|r: u64| !self.rounds@.contains_key(r) ==> #[trigger] self.creators_of(r).len() == 0
        &&& forall|r: u64, c: Address| #[trigger] self.votes_of(r, c) != 0 ==> self.creators_of(r).contains(c)
    }

    pub closed spec fn round_map(&self) -> Map<u64, RetroRound> {
        self.rounds@
    }

    /// The identifier the next round receives.
    pub closed spec fn counter(&self) -> u64 {
        self.round_ctr
    }

    pub closed spec fn vote_map(&self) -> Map<(u64, Address, Address), RetroVote> {
        self.votes@
    }

    pub closed spec fn creator_vote_map(&self) -> Map<(u64, Address), i128> {
        self.creator_votes@
    }

    pub closed spec fn creators_map(&self) -> Map<u64, Vec<Address>> {
        self.round_creators@
    }

    pub closed spec fn voted_map(&self) -> Map<(u64, Address), bool> {
        self.has_voted@
    }

    pub closed spec fn claimed_map(&self) -> Map<(u64, Address), bool> {
        self.claimed@
    }

    /// The vote weight gathered by `creator` in round `round_id`.
    pub open spec fn votes_of(&self, round_id: u64, creator: Address) -> i128 {
        if self.creator_vote_map().contains_key((round_id, creator)) {
            self.creator_vote_map()[(round_id, creator)]
        } else {
            0
        }
    }

    /// The creators nominated in round `round_id`, in order of nomination.
    pub open spec fn creators_of(&self, round_id: u64) -> Seq<Address> {
        if self.creators_map().contains_key(round_id) {
            self.creators_map()[round_id]@
        } else {
            Seq::empty()
        }
    }

    /// Whether `voter` has voted in round `round_id`.
    pub open spec fn voted(&self, round_id: u64, voter: Address) -> bool {
        self.voted_map().contains_key((round_id, voter)) && self.voted_map()[(round_id, voter)]
    }

    /// Whether `creator` has claimed in round `round_id`.
    pub open spec fn has_claimed(&self, round_id: u64, creator: Address) -> bool {
        self.claimed_map().contains_key((round_id, creator)) && self.claimed_map()[(round_id, creator)]
    }

    /// No rounds yet; the first receives identifier 0.
    pub fn new() -> (s: Self)
        ensures
            s.wf(),
            s.round_map() == Map::<u64, RetroRound>::empty(),
            s.counter() == 0,
            forall|r: u64, c: Address| s.votes_of(r, c) == 0 && !s.voted(r, c) && !s.has_claimed(r, c),
            forall|r: u64| s.creators_of(r).len() == 0,
            s.vote_map() == Map::<(u64, Address, Address), RetroVote>::empty(),
    {
        RetroFunding {
            rounds: Table::new(),
            round_ctr: 0,
            votes: Table::new(),
            creator_votes: Table::new(),
            round_creators: Table::new(),
            has_voted: Table::new(),
            claimed: Table::new(),
        }
    }
}

/// Each nominated creator's score is at most the sum of the scores.
proof fn lemma_score_in_sum(
    creators: Seq<Address>,
    round: RetroRound,
    tips: TipJarContract,
    funding: RetroFunding,
    round_id: u64,
    creator: Address,
)
    requires
        creators.no_duplicates(),
        creators.contains(creator),
        forall|c: Address| #[trigger] score_of(round, tips, funding.votes_of(round_id, c) as int, c) >= 0,
    ensures
        score_of(round, tips, funding.votes_of(round_id, creator) as int, creator) <= score_sum(
            creators,
            round,
            tips,
            funding,
            round_id,
        ),
        score_sum(creators, round, tips, funding, round_id) >= 0,
    decreases creators.len(),
{
    let p = creators.drop_last();
    assert(p.no_duplicates()) by {
        assert forall|i: int, j: int| 0 <= i < p.len() && 0 <= j < p.len() && i != j implies p[i] != p[j] by {
            assert(creators[i] == p[i] && creators[j] == p[j]);
        }
    }
    let last = creators.last();
    assert(score_of(round, tips, funding.votes_of(round_id, last) as int, last) >= 0);
    if last == creator {
        lemma_score_sum_nonneg(p, round, tips, funding, round_id);
    } else {
        let i = choose|i: int| 0 <= i < creators.len() && creators[i] == creator;
        assert(i < creators.len() - 1);
        assert(p[i] == creator);
        lemma_score_in_sum(p, round, tips, funding, round_id, creator);
    }
}

proof fn lemma_score_sum_nonneg(
    creators: Seq<Address>,
    round: RetroRound,
    tips: TipJarContract,
    funding: RetroFunding,
    round_id: u64,
)
    requires
        forall|c: Address| #[trigger] score_of(round, tips, funding.votes_of(round_id, c) as int, c) >= 0,
    ensures
        score_sum(creators, round, tips, funding, round_id) >= 0,
    decreases creators.len(),
{
    if creators.len() > 0 {
        let last = creators.last();
        assert(score_of(round, tips, funding.votes_of(round_id, last) as int, last) >= 0);
        lemma_score_sum_nonneg(creators.drop_last(), round, tips, funding, round_id);
    }
}

/// Scores are never negative where the tip records and the votes are not.
proof fn lemma_scores_nonneg(round: RetroRound, tips: TipJarContract, funding: RetroFunding, round_id: u64)
    requires
        tips.wf(),
        funding.wf(),
    ensures
        forall|c: Address| #[trigger] score_of(round, tips, funding.votes_of(round_id, c) as int, c) >= 0,
{
    assert forall|c: Address| #[trigger] score_of(round, tips, funding.votes_of(round_id, c) as int, c) >= 0 by {
        tips.lemma_balance_within_total(c, round.token);
        let t = tips.total_of(c, round.token) as int;
        let n = tips.tip_count_of(c) as int;
        let v = funding.votes_of(round_id, c) as int;
        assert(v >= 0);
        let w = round.criteria;
        let x = t * w.tips_weight_bps + n * 1_000_000 * w.tip_count_weight_bps + v * 1_000_000
            * w.vote_weight_bps;
        assert(x >= 0) by (nonlinear_arith)
            requires
                t >= 0,
                n >= 0,
                v >= 0,
                w.tips_weight_bps >= 0,
                w.tip_count_weight_bps >= 0,
                w.vote_weight_bps >= 0,
                x == t * w.tips_weight_bps + n * 1_000_000 * w.tip_count_weight_bps + v * 1_000_000
                    * w.vote_weight_bps,
        ;
        lemma_tdiv_nonneg(x, 10000);
    }
}

impl RetroFunding {
    proof fn lemma_wf_carries(&self, before: Self)
        requires
            before.wf(),
            self.rounds.wf(),
            self.votes.wf(),
            self.creator_votes.wf(),
            self.round_creators.wf(),
            self.has_voted.wf(),
            self.claimed.wf(),
            self.creator_vote_map() == before.creator_vote_map(),
            self.creators_map() == before.creators_map(),
            forall|r: u64| #[trigger] self.rounds@.contains_key(r) ==> self.rounds@[r].reward_pool > 0,
            forall|r: u64| #[trigger]
                self.rounds@.contains_key(r) ==> r < self.round_ctr && (before.rounds@.contains_key(r)
                    ==> self.rounds@[r].total_votes == before.rounds@[r].total_votes) && (!before.rounds@.contains_key(r)
                    ==> self.rounds@[r].total_votes == 0),
            forall|r: u64| before.rounds@.contains_key(r) ==> #[trigger] self.rounds@.contains_key(r),
        ensures
            self.wf(),
    {
        assert forall|r: u64, c: Address| #[trigger] self.votes_of(r, c) >= 0 by {
            assert(before.votes_of(r, c) >= 0);
        }
        assert forall|r: u64| #[trigger] self.creators_of(r).no_duplicates() by {
            assert(before.creators_of(r).no_duplicates());
        }
        assert forall|r: u64| #[trigger] self.rounds@.contains_key(r) implies r < self.round_ctr
            && self.rounds@[r].total_votes == vote_sum(*self, self.creators_of(r), r) by {
            assert(self.creators_of(r) == before.creators_of(r));
            lemma_vote_sum_same(*self, before, self.creators_of(r), r);
            if before.rounds@.contains_key(r) {
            } else {
                assert(before.creators_of(r).len() == 0);
            }
        }
        assert forall|r: u64| !self.rounds@.contains_key(r) implies #[trigger] self.creators_of(r).len() == 0 by {
            assert(!before.rounds@.contains_key(r));
            assert(self.creators_of(r) == before.creators_of(r));
        }
        assert forall|r: u64, c: Address| #[trigger] self.votes_of(r, c) != 0 implies self.creators_of(r).contains(c) by {
            assert(before.votes_of(r, c) != 0);
            assert(self.creators_of(r) == before.creators_of(r));
        }
    }

    /// Creates a new funding round of `reward_pool` tokens deposited by
    /// `admin`, open for votes from `start_time` to `end_time`.
    pub fn create_round(
        &mut self,
        admin: Address,
        token: Address,
        reward_pool: i128,
        start_time: u64,
        end_time: u64,
        criteria: EvalCriteria,
    ) -> (r: Result<(u64, Transfer), RetroError>)
        requires
            old(self).wf(),
            old(self).counter() < u64::MAX,
            criteria.tips_weight_bps + criteria.tip_count_weight_bps + criteria.vote_weight_bps <= u32::MAX,
        ensures
            final(self).wf(),
            reward_pool <= 0 || end_time <= start_time ==> r == Err::<(u64, Transfer), RetroError>(
                RetroError::InvalidAmount,
            ),
            reward_pool > 0 && end_time > start_time && criteria.tips_weight_bps + criteria.tip_count_weight_bps
                + criteria.vote_weight_bps != 10000 ==> r == Err::<(u64, Transfer), RetroError>(
                RetroError::InvalidCriteria,
            ),
            r is Err ==> final(self).round_map() == old(self).round_map() && final(self).counter() == old(
                self,
            ).counter(),
            reward_pool > 0 && end_time > start_time && criteria.tips_weight_bps + criteria.tip_count_weight_bps
                + criteria.vote_weight_bps == 10000 ==> {
                let id = old(self).counter();
                &&& r == Ok::<(u64, Transfer), RetroError>(
                    (id, Transfer::Deposit { token, from: admin, amount: reward_pool }),
                )
                &&& final(self).counter() == id + 1
                &&& final(self).round_map() == old(self).round_map().insert(
                    id,
                    RetroRound {
                        round_id: id,
                        admin,
                        token,
                        reward_pool,
                        start_time,
                        end_time,
                        status: RetroRoundStatus::Active,
                        criteria,
                        total_votes: 0,
                    },
                )
            },
            final(self).vote_map() == old(self).vote_map(),
            final(self).creator_vote_map() == old(self).creator_vote_map(),
            final(self).creators_map() == old(self).creators_map(),
            final(self).voted_map() == old(self).voted_map(),
            final(self).claimed_map() == old(self).claimed_map(),
    {
        if reward_pool <= 0 {
            return Err(RetroError::InvalidAmount);
        }
        if end_time <= start_time {
            return Err(RetroError::InvalidAmount);
        }
        let weight_sum = criteria.tips_weight_bps + criteria.tip_count_weight_bps + criteria.vote_weight_bps;
        if weight_sum != 10_000 {
            return Err(RetroError::InvalidCriteria);
        }
        let round_id = self.round_ctr;
        self.round_ctr = round_id + 1;
        let round = RetroRound {
            round_id,
            admin,
            token,
            reward_pool,
            start_time,
            end_time,
            status: RetroRoundStatus::Active,
            criteria,
            total_votes: 0,
        };
        self.rounds.insert(round_id, round);
        proof {
            self.lemma_wf_carries(*old(self));
        }
        Ok((round_id, Transfer::Deposit { token, from: admin, amount: reward_pool }))
    }

    /// Nominates a creator as eligible for rewards in a round, at `now`.
    /// Only the round admin may nominate, and only while the round is active
    /// and not past its end; a second nomination changes nothing.
    pub fn nominate_creator(&mut self, now: u64, admin: Address, round_id: u64, creator: Address) -> (r: Result<
        (),
        RetroError,
    >)
        requires
            old(self).wf(),
        ensures
            final(self).wf(),
            ({
                let round = old(self).round_map()[round_id];
                if !old(self).round_map().contains_key(round_id) {
                    r == Err::<(), RetroError>(RetroError::RoundNotFound)
                } else if round.admin != admin {
                    r == Err::<(), RetroError>(RetroError::Unauthorized)
                } else if round.status != RetroRoundStatus::Active {
                    r == Err::<(), RetroError>(RetroError::RoundNotActive)
                } else if now > round.end_time {
                    r == Err::<(), RetroError>(RetroError::RoundEnded)
                } else {
                    r is Ok
                }
            }),
            r is Ok ==> final(self).creators_of(round_id) == if old(self).creators_of(round_id).contains(creator) {
                old(self).creators_of(round_id)
            } else {
                old(self).creators_of(round_id).push(creator)
            },
            r is Err ==> final(self).creators_of(round_id) == old(self).creators_of(round_id),
            forall|q: u64| q != round_id ==> #[trigger] final(self).creators_of(q) == old(self).creators_of(q),
            final(self).round_map() == old(self).round_map(),
            final(self).counter() == old(self).counter(),
            final(self).vote_map() == old(self).vote_map(),
            final(self).creator_vote_map() == old(self).creator_vote_map(),
            final(self).voted_map() == old(self).voted_map(),
            final(self).claimed_map() == old(self).claimed_map(),
    {
        let round = match self.rounds.get(&round_id) {
            Some(r) => *r,
            None => {
                return Err(RetroError::RoundNotFound);
            },
        };
        if round.admin != admin {
            return Err(RetroError::Unauthorized);
        }
        if round.status != RetroRoundStatus::Active {
            return Err(RetroError::RoundNotActive);
        }
        if now > round.end_time {
            return Err(RetroError::RoundEnded);
        }
        let mut creators = match self.round_creators.remove(&round_id) {
            Some(c) => c,
            None => Vec::new(),
        };
        let ghost before = creators@;
        proof {
            assert(before == old(self).creators_of(round_id));
            assert(old(self).creators_of(round_id).no_duplicates());
        }
        if !list_contains(&creators, creator) {
            creators.push(creator);
            proof {
                assert forall|i: int, j: int|
                    0 <= i < creators@.len() && 0 <= j < creators@.len() && i != j implies creators@[i]
                    != creators@[j] by {
                    if i < before.len() && j < before.len() {
                        assert(before[i] != before[j]);
                    } else if i < before.len() {
                        assert(before.contains(creators@[i]));
                    } else {
                        assert(before.contains(creators@[j]));
                    }
                }
            }
        }
        self.round_creators.insert(round_id, creators);
        proof {
            assert forall|q: u64| q != round_id implies #[trigger] self.creators_of(q) == old(self).creators_of(q) by {
                assert(self.creators_map().contains_key(q) == old(self).creators_map().contains_key(q));
            }
            assert forall|q: u64| #[trigger] self.creators_of(q).no_duplicates() by {
                if q != round_id {
                    assert(old(self).creators_of(q).no_duplicates());
                }
            }
            assert forall|q: u64, c: Address| #[trigger] self.votes_of(q, c) >= 0 by {
                assert(old(self).votes_of(q, c) >= 0);
            }
            let pre = *old(self);
            assert forall|q: u64| #[trigger] self.rounds@.contains_key(q) implies q < self.round_ctr
                && self.rounds@[q].total_votes == vote_sum(*self, self.creators_of(q), q) by {
                assert(pre.rounds@.contains_key(q));
                lemma_vote_sum_same(*self, pre, pre.creators_of(q), q);
                if q == round_id && !before.contains(creator) {
                    assert(self.creators_of(q).drop_last() =~= before);
                    assert(pre.votes_of(q, creator) == 0);
                }
            }
            assert forall|q: u64| !self.rounds@.contains_key(q) implies #[trigger] self.creators_of(q).len() == 0 by {
                assert(pre.creators_of(q).len() == 0);
            }
            assert forall|q: u64, c: Address| #[trigger] self.votes_of(q, c) != 0 implies self.creators_of(q).contains(c) by {
                assert(pre.votes_of(q, c) != 0);
                assert(pre.creators_of(q).contains(c));
                if q == round_id && !before.contains(creator) {
                    let i = choose|i: int| 0 <= i < before.len() && before[i] == c;
                    assert(self.creators_of(q)[i] == c);
                }
            }
        }
        Ok(())
    }

    /// Casts a vote of `voter` for a nominated creator in an active round at
    /// `now`. Each voter may vote once per round; the vote weighs the integer
    /// square root of the voter's own tips in the round's token, at least 1.
    pub fn cast_vote(&mut self, now: u64, tips: &TipJarContract, voter: Address, round_id: u64, creator: Address) -> (r:
        Result<(), RetroError>)
        requires
            old(self).wf(),
            tips.wf(),
            ({
                let round = old(self).round_map()[round_id];
                &&& old(self).round_map().contains_key(round_id)
                &&& round.status == RetroRoundStatus::Active
                &&& round.start_time <= now <= round.end_time
                &&& old(self).creators_of(round_id).contains(creator)
                &&& !old(self).voted(round_id, voter)
            }) ==> {
                let round = old(self).round_map()[round_id];
                let t = tips.total_of(voter, round.token) as int;
                let w = vote_weight(t);
                &&& t < i128::MAX
                &&& fits(old(self).votes_of(round_id, creator) + w)
                &&& fits(round.total_votes + w)
            },
        ensures
            final(self).wf(),
            ({
                let round = old(self).round_map()[round_id];
                if !old(self).round_map().contains_key(round_id) {
                    r == Err::<(), RetroError>(RetroError::RoundNotFound)
                } else if round.status != RetroRoundStatus::Active {
                    r == Err::<(), RetroError>(RetroError::RoundNotActive)
                } else if now < round.start_time || now > round.end_time {
                    r == Err::<(), RetroError>(RetroError::RoundEnded)
                } else if !old(self).creators_of(round_id).contains(creator) {
                    r == Err::<(), RetroError>(RetroError::CreatorNotNominated)
                } else if old(self).voted(round_id, voter) {
                    r == Err::<(), RetroError>(RetroError::AlreadyVoted)
                } else {
                    let w = vote_weight(tips.total_of(voter, round.token) as int);
                    &&& r is Ok
                    &&& final(self).vote_map() == old(self).vote_map().insert(
                        (round_id, voter, creator),
                        RetroVote { voter, creator, round_id, weight: w as i128 },
                    )
                    &&& final(self).voted_map() == old(self).voted_map().insert((round_id, voter), true)
                    &&& final(self).creator_vote_map() == old(self).creator_vote_map().insert(
                        (round_id, creator),
                        (old(self).votes_of(round_id, creator) + w) as i128,
                    )
                    &&& final(self).round_map() == old(self).round_map().insert(
                        round_id,
                        RetroRound { total_votes: (round.total_votes + w) as i128, ..round },
                    )
                }
            }),
            r is Err ==> final(self).vote_map() == old(self).vote_map() && final(self).voted_map() == old(
                self,
            ).voted_map() && final(self).creator_vote_map() == old(self).creator_vote_map()
                && final(self).round_map() == old(self).round_map(),
            final(self).counter() == old(self).counter(),
            final(self).creators_map() == old(self).creators_map(),
            final(self).claimed_map() == old(self).claimed_map(),
    {
        let round = match self.rounds.get(&round_id) {
            Some(r) => *r,
            None => {
                return Err(RetroError::RoundNotFound);
            },
        };
        if round.status != RetroRoundStatus::Active {
            return Err(RetroError::RoundNotActive);
        }
        if now < round.start_time || now > round.end_time {
            return Err(RetroError::RoundEnded);
        }
        let nominated = match self.round_creators.get(&round_id) {
            Some(c) => list_contains(c, creator),
            None => false,
        };
        if !nominated {
            return Err(RetroError::CreatorNotNominated);
        }
        let already = match self.has_voted.get(&(round_id, voter)) {
            Some(v) => *v,
            None => false,
        };
        if already {
            return Err(RetroError::AlreadyVoted);
        }
        let voter_tips = tips.get_total_tips(voter, round.token);
        let root = isqrt(voter_tips);
        proof {
            if voter_tips > 0 {
                lemma_floor_sqrt_is(voter_tips as int, root as int);
            }
        }
        let weight = if root > 1 {
            root
        } else {
            1
        };
        let vote = RetroVote { voter, creator, round_id, weight };
        self.votes.insert((round_id, voter, creator), vote);
        self.has_voted.insert((round_id, voter), true);
        let prev = match self.creator_votes.get(&(round_id, creator)) {
            Some(v) => *v,
            None => 0,
        };
        self.creator_votes.insert((round_id, creator), prev + weight);
        let mut updated = round;
        updated.total_votes = round.total_votes + weight;
        self.rounds.insert(round_id, updated);
        proof {
            assert forall|q: u64, c: Address| #[trigger] self.votes_of(q, c) >= 0 by {
                assert(old(self).votes_of(q, c) >= 0);
            }
            assert forall|q: u64| #[trigger] self.creators_of(q).no_duplicates() by {
                assert(old(self).creators_of(q).no_duplicates());
            }
            let pre = *old(self);
            assert(self.creators_map() == pre.creators_map());
            assert forall|q: u64| #[trigger] self.rounds@.contains_key(q) implies q < self.round_ctr
                && self.rounds@[q].total_votes == vote_sum(*self, self.creators_of(q), q) by {
                assert(pre.rounds@.contains_key(q));
                assert(self.creators_of(q) == pre.creators_of(q));
                if q == round_id {
                    assert(pre.creators_of(q).no_duplicates());
                    assert forall|c: Address| c != creator implies #[trigger] self.votes_of(q, c) == pre.votes_of(q, c) by {}
                    lemma_vote_sum_add(pre, *self, pre.creators_of(q), q, creator, weight as int);
                } else {
                    assert forall|c: Address| pre.creators_of(q).contains(c) implies #[trigger] self.votes_of(q, c)
                        == pre.votes_of(q, c) by {}
                    lemma_vote_sum_same(*self, pre, pre.creators_of(q), q);
                }
            }
            assert forall|q: u64| !self.rounds@.contains_key(q) implies #[trigger] self.creators_of(q).len() == 0 by {
                assert(pre.creators_of(q).len() == 0);
                assert(self.creators_of(q) == pre.creators_of(q));
            }
            assert forall|q: u64, c: Address| #[trigger] self.votes_of(q, c) != 0 implies self.creators_of(q).contains(c) by {
                assert(self.creators_of(q) == pre.creators_of(q));
                if !(q == round_id && c == creator) {
                    assert(pre.votes_of(q, c) != 0);
                }
            }
        }
        Ok(())
    }

    /// Finalizes a round after the voting window closes, at `now`; only the
    /// round admin may finalize.
    pub fn finalize_round(&mut self, now: u64, admin: Address, round_id: u64) -> (r: Result<(), RetroError>)
        requires
            old(self).wf(),
        ensures
            final(self).wf(),
            ({
                let round = old(self).round_map()[round_id];
                if !old(self).round_map().contains_key(round_id) {
                    r == Err::<(), RetroError>(RetroError::RoundNotFound)
                } else if round.admin != admin {
                    r == Err::<(), RetroError>(RetroError::Unauthorized)
                } else if round.status != RetroRoundStatus::Active {
                    r == Err::<(), RetroError>(RetroError::RoundNotActive)
                } else if now <= round.end_time {
                    r == Err::<(), RetroError>(RetroError::RoundNotEnded)
                } else {
                    r is Ok && final(self).round_map() == old(self).round_map().insert(
                        round_id,
                        RetroRound { status: RetroRoundStatus::Finalized, ..round },
                    )
                }
            }),
            r is Err ==> final(self).round_map() == old(self).round_map(),
            final(self).counter() == old(self).counter(),
            final(self).vote_map() == old(self).vote_map(),
            final(self).creator_vote_map() == old(self).creator_vote_map(),
            final(self).creators_map() == old(self).creators_map(),
            final(self).voted_map() == old(self).voted_map(),
            final(self).claimed_map() == old(self).claimed_map(),
    {
        let round = match self.rounds.get(&round_id) {
            Some(r) => *r,
            None => {
                return Err(RetroError::RoundNotFound);
            },
        };
        if round.admin != admin {
            return Err(RetroError::Unauthorized);
        }
        if round.status != RetroRoundStatus::Active {
            return Err(RetroError::RoundNotActive);
        }
        if now <= round.end_time {
            return Err(RetroError::RoundNotEnded);
        }
        let mut updated = round;
        updated.status = RetroRoundStatus::Finalized;
        self.rounds.insert(round_id, updated);
        proof {
            self.lemma_wf_carries(*old(self));
        }
        Ok(())
    }

    fn score(&self, tips: &TipJarContract, round: &RetroRound, round_id: u64, creator: Address) -> (r: i128)
        requires
            self.wf(),
            tips.wf(),
            impact_computable(
                round.criteria,
                tips.total_of(creator, round.token) as int,
                tips.tip_count_of(creator) as int,
                self.votes_of(round_id, creator) as int,
            ),
        ensures
            r == score_of(*round, *tips, self.votes_of(round_id, creator) as int, creator),
    {
        let total_tips = tips.get_total_tips(creator, round.token);
        let tip_count = tips.get_tip_count(creator) as i128;
        let votes = self.get_creator_votes(round_id, creator);
        let c = round.criteria;
        div_i128(
            total_tips * c.tips_weight_bps as i128 + tip_count * 1_000_000 * c.tip_count_weight_bps as i128
                + votes * 1_000_000 * c.vote_weight_bps as i128,
            10_000,
        )
    }

    /// Computes a creator's impact score for a round.
    pub fn compute_impact_score(&self, tips: &TipJarContract, round_id: u64, creator: Address) -> (r: Result<
        i128,
        RetroError,
    >)
        requires
            self.wf(),
            tips.wf(),
            self.round_map().contains_key(round_id) ==> {
                let round = self.round_map()[round_id];
                impact_computable(
                    round.criteria,
                    tips.total_of(creator, round.token) as int,
                    tips.tip_count_of(creator) as int,
                    self.votes_of(round_id, creator) as int,
                )
            },
        ensures
            r == if self.round_map().contains_key(round_id) {
                Ok::<i128, RetroError>(
                    score_of(
                        self.round_map()[round_id],
                        *tips,
                        self.votes_of(round_id, creator) as int,
                        creator,
                    ) as i128,
                )
            } else {
                Err(RetroError::RoundNotFound)
            },
    {
        let round = match self.rounds.get(&round_id) {
            Some(r) => *r,
            None => {
                return Err(RetroError::RoundNotFound);
            },
        };
        Ok(self.score(tips, &round, round_id, creator))
    }

    /// Claims the retroactive reward of `creator` in a finalized round: the
    /// reward pool times the creator's score over the sum of the scores of
    /// all nominated creators. A claim never pays more than the pool.
    pub fn claim_reward(&mut self, tips: &TipJarContract, creator: Address, round_id: u64) -> (r: Result<
        (i128, Transfer),
        RetroError,
    >)
        requires
            old(self).wf(),
            tips.wf(),
            ({
                let round = old(self).round_map()[round_id];
                &&& old(self).round_map().contains_key(round_id)
                &&& round.status == RetroRoundStatus::Finalized
                &&& !old(self).has_claimed(round_id, creator)
            }) ==> {
                let round = old(self).round_map()[round_id];
                let creators = old(self).creators_of(round_id);
                creators.contains(creator) ==> {
                    &&& score_sums_fit(creators, round, *tips, *old(self), round_id)
                    &&& fits(
                        round.reward_pool * score_of(
                            round,
                            *tips,
                            old(self).votes_of(round_id, creator) as int,
                            creator,
                        ),
                    )
                }
            },
        ensures
            final(self).wf(),
            ({
                let round = old(self).round_map()[round_id];
                let creators = old(self).creators_of(round_id);
                let cs = score_of(round, *tips, old(self).votes_of(round_id, creator) as int, creator);
                let ts = score_sum(creators, round, *tips, *old(self), round_id);
                if !old(self).round_map().contains_key(round_id) {
                    r == Err::<(i128, Transfer), RetroError>(RetroError::RoundNotFound)
                } else if round.status != RetroRoundStatus::Finalized {
                    r == Err::<(i128, Transfer), RetroError>(RetroError::RoundNotFinalized)
                } else if old(self).has_claimed(round_id, creator) {
                    r == Err::<(i128, Transfer), RetroError>(RetroError::AlreadyClaimed)
                } else if !creators.contains(creator) {
                    r == Err::<(i128, Transfer), RetroError>(RetroError::CreatorNotNominated)
                } else if cs == 0 || ts == 0 || tdiv(round.reward_pool * cs, ts) == 0 {
                    r == Err::<(i128, Transfer), RetroError>(RetroError::NothingToClaim)
                } else {
                    let reward = tdiv(round.reward_pool * cs, ts);
                    &&& r == Ok::<(i128, Transfer), RetroError>(
                        (reward as i128, Transfer::Payout { token: round.token, to: creator, amount: reward as i128 }),
                    )
                    &&& 0 < reward <= round.reward_pool
                    &&& reward == reward_owed(round, *tips, *old(self), round_id, creator)
                    &&& final(self).claimed_map() == old(self).claimed_map().insert((round_id, creator), true)
                }
            }),
            r is Err ==> final(self).claimed_map() == old(self).claimed_map(),
            final(self).round_map() == old(self).round_map(),
            final(self).counter() == old(self).counter(),
            final(self).vote_map() == old(self).vote_map(),
            final(self).creator_vote_map() == old(self).creator_vote_map(),
            final(self).creators_map() == old(self).creators_map(),
            final(self).voted_map() == old(self).voted_map(),
    {
        let round = match self.rounds.get(&round_id) {
            Some(r) => *r,
            None => {
                return Err(RetroError::RoundNotFound);
            },
        };
        if round.status != RetroRoundStatus::Finalized {
            return Err(RetroError::RoundNotFinalized);
        }
        let claimed = match self.claimed.get(&(round_id, creator)) {
            Some(c) => *c,
            None => false,
        };
        if claimed {
            return Err(RetroError::AlreadyClaimed);
        }
        let creators = self.get_round_creators(round_id);
        if !list_contains(&creators, creator) {
            return Err(RetroError::CreatorNotNominated);
        }
        let ghost cs_seq = creators@;
        let mut total_score: i128 = 0;
        let mut i: usize = 0;
        while i < creators.len()
            invariant
                self.wf(),
                tips.wf(),
                *self == *old(self),
                self.round_map().contains_key(round_id),
                round == self.round_map()[round_id],
                cs_seq == creators@,
                cs_seq == self.creators_of(round_id),
                score_sums_fit(cs_seq, round, *tips, *self, round_id),
                0 <= i <= cs_seq.len(),
                total_score == score_sum(cs_seq.take(i as int), round, *tips, *self, round_id),
            decreases cs_seq.len() - i,
        {
            proof {
                assert(cs_seq.take(i + 1).drop_last() =~= cs_seq.take(i as int));
                lemma_sums_fit_prefix(cs_seq, round, *tips, *self, round_id, i as int + 1);
            }
            let c = creators[i];
            let sc = self.score(tips, &round, round_id, c);
            total_score = total_score + sc;
            i = i + 1;
        }
        proof {
            assert(cs_seq.take(i as int) =~= cs_seq);
            lemma_creator_computable(cs_seq, round, *tips, *self, round_id, creator);
        }
        let creator_score = self.score(tips, &round, round_id, creator);
        if creator_score == 0 || total_score == 0 {
            return Err(RetroError::NothingToClaim);
        }
        proof {
            lemma_scores_nonneg(round, *tips, *self, round_id);
            lemma_score_in_sum(cs_seq, round, *tips, *self, round_id, creator);
        }
        let reward = div_i128(round.reward_pool * creator_score, total_score);
        if reward == 0 {
            return Err(RetroError::NothingToClaim);
        }
        proof {
            let p = round.reward_pool as int;
            let a = creator_score as int;
            let b = total_score as int;
            assert(p > 0);
            assert(p * a >= 0) by (nonlinear_arith)
                requires
                    p > 0,
                    a >= 0,
            ;
            lemma_tdiv_nonneg(p * a, b);
            assert((p * a) / b <= p) by (nonlinear_arith)
                requires
                    p > 0,
                    0 <= a <= b,
                    b > 0,
            ;
        }
        self.claimed.insert((round_id, creator), true);
        proof {
            self.lemma_wf_carries(*old(self));
        }
        Ok((reward, Transfer::Payout { token: round.token, to: creator, amount: reward }))
    }

    /// Returns a round by ID.
    pub fn get_round(&self, round_id: u64) -> (r: Result<RetroRound, RetroError>)
        requires
            self.wf(),
        ensures
            r == if self.round_map().contains_key(round_id) {
                Ok::<RetroRound, RetroError>(self.round_map()[round_id])
            } else {
                Err(RetroError::RoundNotFound)
            },
    {
        match self.rounds.get(&round_id) {
            Some(r) => Ok(*r),
            None => Err(RetroError::RoundNotFound),
        }
    }

    /// Returns the nominated creators for a round.
    pub fn get_round_creators(&self, round_id: u64) -> (r: Vec<Address>)
        requires
            self.wf(),
        ensures
            r@ == self.creators_of(round_id),
    {
        match self.round_creators.get(&round_id) {
            Some(c) => copy_list(c),
            None => Vec::new(),
        }
    }

    /// Returns the aggregated vote weight for a creator in a round.
    pub fn get_creator_votes(&self, round_id: u64, creator: Address) -> (r: i128)
        requires
            self.wf(),
        ensures
            r == self.votes_of(round_id, creator),
    {
        match self.creator_votes.get(&(round_id, creator)) {
            Some(v) => *v,
            None => 0,
        }
    }

    /// Returns whether a voter has already voted in a round.
    pub fn has_voted(&self, round_id: u64, voter: Address) -> (r: bool)
        requires
            self.wf(),
        ensures
            r == self.voted(round_id, voter),
    {
        match self.has_voted.get(&(round_id, voter)) {
            Some(v) => *v,
            None => false,
        }
    }
}

proof fn lemma_sums_fit_prefix(
    creators: Seq<Address>,
    round: RetroRound,
    tips: TipJarContract,
    funding: RetroFunding,
    round_id: u64,
    j: int,
)
    requires
        0 <= j <= creators.len(),
        score_sums_fit(creators, round, tips, funding, round_id),
    ensures
        score_sums_fit(creators.take(j), round, tips, funding, round_id),
    decreases creators.len() - j,
{
    if j == creators.len() {
        assert(creators.take(j) =~= creators);
    } else {
        lemma_sums_fit_prefix(creators, round, tips, funding, round_id, j + 1);
        assert(creators.take(j + 1).drop_last() =~= creators.take(j));
    }
}

proof fn lemma_creator_computable(
    creators: Seq<Address>,
    round: RetroRound,
    tips: TipJarContract,
    funding: RetroFunding,
    round_id: u64,
    creator: Address,
)
    requires
        creators.contains(creator),
        score_sums_fit(creators, round, tips, funding, round_id),
    ensures
        impact_computable(
            round.criteria,
            tips.total_of(creator, round.token) as int,
            tips.tip_count_of(creator) as int,
            funding.votes_of(round_id, creator) as int,
        ),
    decreases creators.len(),
{
    if creators.last() != creator {
        let i = choose|i: int| 0 <= i < creators.len() && creators[i] == creator;
        assert(creators.drop_last()[i] == creator);
        lemma_creator_computable(creators.drop_last(), round, tips, funding, round_id, creator);
    }
}

/// The reward `creator` is owed in a round: the pool times the creator's
/// score over the sum of the scores of all nominated creators, rounded
/// toward zero (what a successful claim pays); nothing while that sum is
/// zero.
pub open spec fn reward_owed(round: RetroRound, tips: TipJarContract, funding: RetroFunding, round_id: u64, creator: Address) -> int {
    let total = score_sum(funding.creators_of(round_id), round, tips, funding, round_id);
    if total == 0 {
        0
    } else {
        tdiv(round.reward_pool * score_of(round, tips, funding.votes_of(round_id, creator) as int, creator), total)
    }
}

/// The rewards owed to `creators`, summed.
pub open spec fn rewards_owed_sum(creators: Seq<Address>, round: RetroRound, tips: TipJarContract, funding: RetroFunding, round_id: u64) -> int
    decreases creators.len(),
{
    if creators.len() == 0 {
        0
    } else {
        rewards_owed_sum(creators.drop_last(), round, tips, funding, round_id) + reward_owed(
            round,
            tips,
            funding,
            round_id,
            creators.last(),
        )
    }
}

proof fn lemma_rewards_scaled(
    creators: Seq<Address>,
    round: RetroRound,
    tips: TipJarContract,
    funding: RetroFunding,
    round_id: u64,
    total: int,
)
    requires
        total > 0,
        total == score_sum(funding.creators_of(round_id), round, tips, funding, round_id),
        round.reward_pool > 0,
        forall|c: Address| #[trigger] score_of(round, tips, funding.votes_of(round_id, c) as int, c) >= 0,
    ensures
        rewards_owed_sum(creators, round, tips, funding, round_id) * total <= round.reward_pool * score_sum(
            creators,
            round,
            tips,
            funding,
            round_id,
        ),
        rewards_owed_sum(creators, round, tips, funding, round_id) >= 0,
    decreases creators.len(),
{
    if creators.len() > 0 {
        let p = creators.drop_last();
        let last = creators.last();
        lemma_rewards_scaled(p, round, tips, funding, round_id, total);
        let pool = round.reward_pool as int;
        let s = score_of(round, tips, funding.votes_of(round_id, last) as int, last);
        assert(s >= 0);
        let r0 = rewards_owed_sum(p, round, tips, funding, round_id);
        let s0 = score_sum(p, round, tips, funding, round_id);
        let q = reward_owed(round, tips, funding, round_id, last);
        assert(pool * s >= 0) by (nonlinear_arith)
            requires
                pool > 0,
                s >= 0,
        ;
        lemma_tdiv_nonneg(pool * s, total);
        assert(q == (pool * s) / total);
        assert(q * total <= pool * s && q >= 0) by (nonlinear_arith)
            requires
                q == (pool * s) / total,
                total > 0,
                pool * s >= 0,
        ;
        assert((r0 + q) * total <= pool * (s0 + s)) by (nonlinear_arith)
            requires
                r0 * total <= pool * s0,
                q * total <= pool * s,
        ;
    }
}

/// The rewards owed to all nominated creators of a round together never
/// exceed its reward pool, so every creator can claim in full.
pub proof fn lemma_rewards_within_pool(funding: RetroFunding, tips: TipJarContract, round_id: u64)
    requires
        funding.wf(),
        tips.wf(),
        funding.round_map().contains_key(round_id),
    ensures
        ({
            let round = funding.round_map()[round_id];
            &&& rewards_owed_sum(funding.creators_of(round_id), round, tips, funding, round_id)
                <= round.reward_pool
            &&& forall|c: Address| #[trigger] funding.creators_of(round_id).contains(c) ==> 0 <= reward_owed(
                round,
                tips,
                funding,
                round_id,
                c,
            ) <= round.reward_pool
        }),
{
    let round = funding.round_map()[round_id];
    let creators = funding.creators_of(round_id);
    lemma_scores_nonneg(round, tips, funding, round_id);
    lemma_score_sum_nonneg(creators, round, tips, funding, round_id);
    let total = score_sum(creators, round, tips, funding, round_id);
    let pool = round.reward_pool as int;
    assert(pool > 0);
    if total > 0 {
        lemma_rewards_scaled(creators, round, tips, funding, round_id, total);
        let r = rewards_owed_sum(creators, round, tips, funding, round_id);
        assert(r <= pool) by (nonlinear_arith)
            requires
                r * total <= pool * total,
                total > 0,
        ;
        assert forall|c: Address| #[trigger] creators.contains(c) implies 0 <= reward_owed(
            round,
            tips,
            funding,
            round_id,
            c,
        ) <= pool by {
            lemma_score_in_sum(creators, round, tips, funding, round_id, c);
            let s = score_of(round, tips, funding.votes_of(round_id, c) as int, c);
            assert(pool * s >= 0 && pool * s <= pool * total) by (nonlinear_arith)
                requires
                    pool > 0,
                    0 <= s <= total,
            ;
            lemma_tdiv_nonneg(pool * s, total);
            assert((pool * s) / total <= pool) by (nonlinear_arith)
                requires
                    0 <= pool * s <= pool * total,
                    total > 0,
            ;
        }
    } else {
        lemma_rewards_zero_total(creators, round, tips, funding, round_id);
    }
}

proof fn lemma_rewards_zero_total(creators: Seq<Address>, round: RetroRound, tips: TipJarContract, funding: RetroFunding, round_id: u64)
    requires
        score_sum(funding.creators_of(round_id), round, tips, funding, round_id) == 0,
    ensures
        rewards_owed_sum(creators, round, tips, funding, round_id) == 0,
    decreases creators.len(),
{
    if creators.len() > 0 {
        lemma_rewards_zero_total(creators.drop_last(), round, tips, funding, round_id);
    }
}

/// A round's total vote weight is the sum of the weights its nominated
/// creators gathered: no creator is nominated twice, and only nominated
/// creators gather votes.
pub proof fn lemma_total_votes_is_sum(funding: RetroFunding, round_id: u64)
    requires
        funding.wf(),
        funding.round_map().contains_key(round_id),
    ensures
        funding.round_map()[round_id].total_votes == vote_sum(funding, funding.creators_of(round_id), round_id),
        funding.creators_of(round_id).no_duplicates(),
        forall|c: Address| #[trigger] funding.votes_of(round_id, c) != 0 ==> funding.creators_of(round_id).contains(c),
{
}

} // verus!
