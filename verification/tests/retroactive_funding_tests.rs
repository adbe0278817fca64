use tipjar::contract::TipJarContract;
use tipjar::ledger::{Address, Transfer};
use tipjar::retroactive_funding::{EvalCriteria, RetroError, RetroFunding, RetroRoundStatus};

struct Setup {
    tips: TipJarContract,
    funding: RetroFunding,
    admin: Address,
    token: Address,
    now: u64,
    next_address: u64,
}

impl Setup {
    fn generate(&mut self) -> Address {
        self.next_address += 1;
        Address(self.next_address)
    }

    fn advance_time(&mut self, seconds: u64) {
        self.now += seconds;
    }
}

fn setup() -> Setup {
    let admin = Address(2);
    let token = Address(10);
    let mut tips = TipJarContract::new();
    tips.init(admin).unwrap();
    tips.add_token(admin, token).unwrap();
    Setup { tips, funding: RetroFunding::new(), admin, token, now: 0, next_address: 1000 }
}

fn equal_criteria() -> EvalCriteria {
    EvalCriteria { tips_weight_bps: 3_334, tip_count_weight_bps: 3_333, vote_weight_bps: 3_333 }
}

fn vote_only_criteria() -> EvalCriteria {
    EvalCriteria { tips_weight_bps: 0, tip_count_weight_bps: 0, vote_weight_bps: 10_000 }
}

fn create(s: &mut Setup, end: u64, criteria: EvalCriteria) -> u64 {
    let now = s.now;
    let (id, _deposit) = s.funding.create_round(s.admin, s.token, 1_000, now, now + end, criteria).unwrap();
    id
}

#[test]
fn test_create_round_basic() {
    let mut s = setup();
    let now = s.now;
    let (round_id, deposit) = s.funding.create_round(s.admin, s.token, 1_000, now, now + 3600, equal_criteria()).unwrap();
    assert_eq!(round_id, 0);
    assert_eq!(deposit, Transfer::Deposit { token: s.token, from: s.admin, amount: 1_000 });

    let round = s.funding.get_round(round_id).unwrap();
    assert_eq!(round.reward_pool, 1_000);
    assert_eq!(round.status, RetroRoundStatus::Active);
    assert_eq!(round.total_votes, 0);
}

#[test]
fn test_create_multiple_rounds() {
    let mut s = setup();
    let r0 = create(&mut s, 3600, equal_criteria());
    let r1 = create(&mut s, 7200, equal_criteria());
    let r2 = create(&mut s, 86400, equal_criteria());

    assert_eq!(r0, 0);
    assert_eq!(r1, 1);
    assert_eq!(r2, 2);
}

#[test]
#[should_panic]
fn test_create_round_invalid_criteria() {
    let mut s = setup();
    let now = s.now;
    // weights sum to 9_000, not 10_000 — should panic
    s.funding
        .create_round(
            s.admin,
            s.token,
            1_000,
            now,
            now + 3600,
            EvalCriteria { tips_weight_bps: 3_000, tip_count_weight_bps: 3_000, vote_weight_bps: 3_000 },
        )
        .unwrap();
}

#[test]
fn test_nominate_creator() {
    let mut s = setup();
    let round_id = create(&mut s, 3600, equal_criteria());

    let creator = s.generate();
    s.funding.nominate_creator(s.now, s.admin, round_id, creator).unwrap();

    let creators = s.funding.get_round_creators(round_id);
    assert_eq!(creators.len(), 1);
    assert_eq!(creators[0], creator);
}

#[test]
fn test_nominate_creator_idempotent() {
    let mut s = setup();
    let round_id = create(&mut s, 3600, equal_criteria());

    let creator = s.generate();
    s.funding.nominate_creator(s.now, s.admin, round_id, creator).unwrap();
    s.funding.nominate_creator(s.now, s.admin, round_id, creator).unwrap(); // duplicate — no-op

    let creators = s.funding.get_round_creators(round_id);
    assert_eq!(creators.len(), 1);
}

#[test]
fn test_cast_vote_basic() {
    let mut s = setup();
    let round_id = create(&mut s, 3600, vote_only_criteria());

    let creator = s.generate();
    s.funding.nominate_creator(s.now, s.admin, round_id, creator).unwrap();

    let voter = s.generate();
    s.funding.cast_vote(s.now, &s.tips, voter, round_id, creator).unwrap();

    // voter with no tip history gets weight = 1
    let votes = s.funding.get_creator_votes(round_id, creator);
    assert_eq!(votes, 1);
    assert!(s.funding.has_voted(round_id, voter));
}

#[test]
#[should_panic]
fn test_cast_vote_twice_panics() {
    let mut s = setup();
    let round_id = create(&mut s, 3600, vote_only_criteria());

    let creator = s.generate();
    s.funding.nominate_creator(s.now, s.admin, round_id, creator).unwrap();

    let voter = s.generate();
    s.funding.cast_vote(s.now, &s.tips, voter, round_id, creator).unwrap();
    s.funding.cast_vote(s.now, &s.tips, voter, round_id, creator).unwrap(); // should panic
}

#[test]
#[should_panic]
fn test_cast_vote_unnominated_creator_panics() {
    let mut s = setup();
    let round_id = create(&mut s, 3600, vote_only_criteria());

    let creator = s.generate();
    let voter = s.generate();
    // creator not nominated — should panic
    s.funding.cast_vote(s.now, &s.tips, voter, round_id, creator).unwrap();
}

#[test]
fn test_multiple_voters() {
    let mut s = setup();
    let round_id = create(&mut s, 3600, vote_only_criteria());

    let creator = s.generate();
    s.funding.nominate_creator(s.now, s.admin, round_id, creator).unwrap();

    for _ in 0..5 {
        let voter = s.generate();
        s.funding.cast_vote(s.now, &s.tips, voter, round_id, creator).unwrap();
    }

    let votes = s.funding.get_creator_votes(round_id, creator);
    assert_eq!(votes, 5); // 5 voters × weight 1 each
}

#[test]
fn test_finalize_round() {
    let mut s = setup();
    let round_id = create(&mut s, 3600, vote_only_criteria());

    s.advance_time(3601);
    s.funding.finalize_round(s.now, s.admin, round_id).unwrap();

    let round = s.funding.get_round(round_id).unwrap();
    assert_eq!(round.status, RetroRoundStatus::Finalized);
}

#[test]
#[should_panic]
fn test_finalize_before_end_panics() {
    let mut s = setup();
    let round_id = create(&mut s, 3600, vote_only_criteria());

    // voting window still open — should panic
    s.funding.finalize_round(s.now, s.admin, round_id).unwrap();
}

#[test]
fn test_compute_impact_score_vote_only() {
    let mut s = setup();
    let round_id = create(&mut s, 3600, vote_only_criteria());

    let creator = s.generate();
    s.funding.nominate_creator(s.now, s.admin, round_id, creator).unwrap();

    // 3 voters, each weight 1
    for _ in 0..3 {
        let voter = s.generate();
        s.funding.cast_vote(s.now, &s.tips, voter, round_id, creator).unwrap();
    }

    let score = s.funding.compute_impact_score(&s.tips, round_id, creator).unwrap();
    // score = (0 * 0 + 0 * 0 + 3 * 1_000_000 * 10_000) / 10_000 = 3_000_000
    assert_eq!(score, 3_000_000);
}

#[test]
fn test_claim_reward_single_creator() {
    let mut s = setup();
    let round_id = create(&mut s, 3600, vote_only_criteria());

    let creator = s.generate();
    s.funding.nominate_creator(s.now, s.admin, round_id, creator).unwrap();

    let voter = s.generate();
    s.funding.cast_vote(s.now, &s.tips, voter, round_id, creator).unwrap();

    s.advance_time(3601);
    s.funding.finalize_round(s.now, s.admin, round_id).unwrap();

    let (reward, payout) = s.funding.claim_reward(&s.tips, creator, round_id).unwrap();
    // Only creator → gets 100% of pool
    assert_eq!(reward, 1_000);
    assert_eq!(payout, Transfer::Payout { token: s.token, to: creator, amount: 1_000 });
}

#[test]
fn test_claim_reward_two_creators_equal_votes() {
    let mut s = setup();
    let round_id = create(&mut s, 3600, vote_only_criteria());

    let creator_a = s.generate();
    let creator_b = s.generate();
    s.funding.nominate_creator(s.now, s.admin, round_id, creator_a).unwrap();
    s.funding.nominate_creator(s.now, s.admin, round_id, creator_b).unwrap();

    // 1 vote each
    let v1 = s.generate();
    let v2 = s.generate();
    s.funding.cast_vote(s.now, &s.tips, v1, round_id, creator_a).unwrap();
    s.funding.cast_vote(s.now, &s.tips, v2, round_id, creator_b).unwrap();

    s.advance_time(3601);
    s.funding.finalize_round(s.now, s.admin, round_id).unwrap();

    let (reward_a, _) = s.funding.claim_reward(&s.tips, creator_a, round_id).unwrap();
    let (reward_b, _) = s.funding.claim_reward(&s.tips, creator_b, round_id).unwrap();

    // Equal scores → equal split (integer division may leave 1 stroop in contract)
    assert_eq!(reward_a, 500);
    assert_eq!(reward_b, 500);
}

#[test]
#[should_panic]
fn test_claim_reward_twice_panics() {
    let mut s = setup();
    let round_id = create(&mut s, 3600, vote_only_criteria());

    let creator = s.generate();
    s.funding.nominate_creator(s.now, s.admin, round_id, creator).unwrap();
    let voter = s.generate();
    s.funding.cast_vote(s.now, &s.tips, voter, round_id, creator).unwrap();

    s.advance_time(3601);
    s.funding.finalize_round(s.now, s.admin, round_id).unwrap();

    s.funding.claim_reward(&s.tips, creator, round_id).unwrap();
    s.funding.claim_reward(&s.tips, creator, round_id).unwrap(); // should panic
}

#[test]
#[should_panic]
fn test_claim_reward_before_finalize_panics() {
    let mut s = setup();
    let round_id = create(&mut s, 3600, vote_only_criteria());

    let creator = s.generate();
    s.funding.nominate_creator(s.now, s.admin, round_id, creator).unwrap();
    let voter = s.generate();
    s.funding.cast_vote(s.now, &s.tips, voter, round_id, creator).unwrap();

    // Not finalized yet — should panic
    s.funding.claim_reward(&s.tips, creator, round_id).unwrap();
}

// ── Further cases ────────────────────────────────────────────────────────────

#[test]
fn retro_errors_by_cause() {
    let mut s = setup();
    let now = s.now;
    assert_eq!(
        s.funding.create_round(s.admin, s.token, 0, now, now + 10, vote_only_criteria()).unwrap_err(),
        RetroError::InvalidAmount
    );
    assert_eq!(
        s.funding.create_round(s.admin, s.token, 10, now + 10, now + 10, vote_only_criteria()).unwrap_err(),
        RetroError::InvalidAmount
    );
    assert_eq!(s.funding.get_round(7).unwrap_err(), RetroError::RoundNotFound);

    let round_id = create(&mut s, 3600, vote_only_criteria());
    let creator = s.generate();
    let stranger = s.generate();
    assert_eq!(
        s.funding.nominate_creator(s.now, stranger, round_id, creator).unwrap_err(),
        RetroError::Unauthorized
    );
    assert_eq!(
        s.funding.finalize_round(s.now, stranger, round_id).unwrap_err(),
        RetroError::Unauthorized
    );
    assert_eq!(
        s.funding.finalize_round(s.now, s.admin, round_id).unwrap_err(),
        RetroError::RoundNotEnded
    );
    s.funding.nominate_creator(s.now, s.admin, round_id, creator).unwrap();
    let voter = s.generate();
    assert_eq!(
        s.funding.claim_reward(&s.tips, creator, round_id).unwrap_err(),
        RetroError::RoundNotFinalized
    );

    s.advance_time(3601);
    assert_eq!(
        s.funding.cast_vote(s.now, &s.tips, voter, round_id, creator).unwrap_err(),
        RetroError::RoundEnded
    );
    assert_eq!(
        s.funding.nominate_creator(s.now, s.admin, round_id, voter).unwrap_err(),
        RetroError::RoundEnded
    );
    s.funding.finalize_round(s.now, s.admin, round_id).unwrap();
    assert_eq!(
        s.funding.finalize_round(s.now, s.admin, round_id).unwrap_err(),
        RetroError::RoundNotActive
    );
    // No votes and no tips: the score is zero, so there is nothing to claim.
    assert_eq!(
        s.funding.claim_reward(&s.tips, creator, round_id).unwrap_err(),
        RetroError::NothingToClaim
    );
    assert_eq!(
        s.funding.claim_reward(&s.tips, voter, round_id).unwrap_err(),
        RetroError::CreatorNotNominated
    );
}

#[test]
fn vote_weight_is_square_root_of_own_tips() {
    let mut s = setup();
    let round_id = create(&mut s, 3600, vote_only_criteria());
    let creator = s.generate();
    s.funding.nominate_creator(s.now, s.admin, round_id, creator).unwrap();

    // The voter has received 10_000 in tips of the round's token.
    let voter = s.generate();
    s.tips.tip(Address(5), voter, s.token, 10_000).unwrap();
    s.funding.cast_vote(s.now, &s.tips, voter, round_id, creator).unwrap();
    assert_eq!(s.funding.get_creator_votes(round_id, creator), 100);
    assert_eq!(s.funding.get_round(round_id).unwrap().total_votes, 100);
}

#[test]
fn rewards_follow_scores_and_stay_within_pool() {
    let mut s = setup();
    let round_id = create(&mut s, 3600, vote_only_criteria());
    let a = s.generate();
    let b = s.generate();
    s.funding.nominate_creator(s.now, s.admin, round_id, a).unwrap();
    s.funding.nominate_creator(s.now, s.admin, round_id, b).unwrap();
    // a gets two votes, b one.
    for c in [a, a, b] {
        let voter = s.generate();
        s.funding.cast_vote(s.now, &s.tips, voter, round_id, c).unwrap();
    }
    s.advance_time(3601);
    s.funding.finalize_round(s.now, s.admin, round_id).unwrap();
    let (ra, _) = s.funding.claim_reward(&s.tips, a, round_id).unwrap();
    let (rb, _) = s.funding.claim_reward(&s.tips, b, round_id).unwrap();
    assert_eq!(ra, 666);
    assert_eq!(rb, 333);
    assert!(ra + rb <= 1_000);
}

#[test]
fn impact_score_mixes_tips_count_and_votes() {
    let mut s = setup();
    let round_id = create(&mut s, 3600, equal_criteria());
    let creator = s.generate();
    s.tips.tip(Address(5), creator, s.token, 2_000).unwrap();
    s.funding.nominate_creator(s.now, s.admin, round_id, creator).unwrap();
    let voter = s.generate();
    s.funding.cast_vote(s.now, &s.tips, voter, round_id, creator).unwrap();
    // tips 2_000 * 3_334 + count 0 (never recorded) + votes 1 * 1_000_000 * 3_333, over 10_000.
    let score = s.funding.compute_impact_score(&s.tips, round_id, creator).unwrap();
    assert_eq!(score, (2_000 * 3_334 + 1_000_000 * 3_333) / 10_000);
}

#[test]
fn round_total_is_the_sum_of_creator_votes() {
    let mut s = setup();
    let round_id = create(&mut s, 3600, vote_only_criteria());
    let a = s.generate();
    let b = s.generate();
    s.funding.nominate_creator(s.now, s.admin, round_id, a).unwrap();
    s.funding.nominate_creator(s.now, s.admin, round_id, b).unwrap();
    let rich = s.generate();
    s.tips.tip(Address(5), rich, s.token, 400).unwrap();
    s.funding.cast_vote(s.now, &s.tips, rich, round_id, a).unwrap();
    for c in [a, b, b] {
        let voter = s.generate();
        s.funding.cast_vote(s.now, &s.tips, voter, round_id, c).unwrap();
    }
    let total = s.funding.get_round(round_id).unwrap().total_votes;
    assert_eq!(s.funding.get_creator_votes(round_id, a), 21);
    assert_eq!(s.funding.get_creator_votes(round_id, b), 2);
    assert_eq!(total, 23);
}
