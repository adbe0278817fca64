//! Non-transferable reputation tokens tracking creator and supporter
//! behaviour: minting, decay over time, score calculation and a bounded
//! history of changes.

use vstd::prelude::*;

use crate::ledger::{copy_list, div_i128, fits, lemma_tdiv_nonneg, tdiv, Address};
use crate::table::Table;
use vstd::arithmetic::div_mod::lemma_div_denominator;
use vstd::arithmetic::power::lemma_pow0;
use vstd::arithmetic::power2::{lemma_pow2, lemma_pow2_pos, lemma_pow2_unfold, pow2};

verus! {

/// Fixed-point precision (1_000_000 = 1.0).
pub const PRECISION: i128 = 1_000_000;

/// Score awarded per unit tipped.
pub const SCORE_PER_UNIT: i128 = 1_000;

/// Half-life for decay: score halves every 30 days.
pub const HALF_LIFE_SECS: u64 = 30 * 24 * 3_600;

/// Max history entries per account.
pub const HISTORY_SIZE: u32 = 20;

/// A reputation token record (non-transferable).
#[derive(Clone, Copy, PartialEq, Eq, Structural, Debug)]
pub struct ReputationToken {
    pub owner: Address,
    /// Current score (PRECISION scale).
    pub score: i128,
    pub last_updated: u64,
    pub total_minted: i128,
    pub total_decayed: i128,
}

/// A history entry for reputation changes.
#[derive(Clone, Copy, PartialEq, Eq, Structural, Debug)]
pub struct RepTokenHistory {
    pub delta: i128,
    pub score_after: i128,
    pub timestamp: u64,
    pub is_decay: bool,
}

/// Halving `score` once per whole half-life in `remaining`, while it is
/// positive: the score reached and the time left over.
pub open spec fn halvings(score: int, remaining: int) -> (int, int)
    decreases remaining,
{
    if remaining >= HALF_LIFE_SECS && score > 0 {
        halvings(score / 2, remaining - HALF_LIFE_SECS)
    } else {
        (score, remaining)
    }
}

pub open spec fn max0(x: int) -> int {
    if x < 0 {
        0
    } else {
        x
    }
}

/// A score after `elapsed` seconds of decay: halved once per whole
/// half-life, then reduced linearly by the part of a half-life left over
/// (by half of the score over a whole half-life); never below zero.
pub open spec fn decayed(score: int, elapsed: int) -> int {
    if score <= 0 || elapsed == 0 {
        max0(score)
    } else {
        let (s, rem) = halvings(score, elapsed);
        if rem > 0 && s > 0 {
            max0(s - (s * rem) / (2 * HALF_LIFE_SECS))
        } else {
            max0(s)
        }
    }
}

/// [`decayed`] can be computed on `i128` without a fault.
pub open spec fn decay_computable(score: int, elapsed: int) -> bool {
    score <= 0 || elapsed == 0 || {
        let (s, rem) = halvings(score, elapsed);
        fits(s * rem)
    }
}

proof fn lemma_halvings(score: int, remaining: int)
    requires
        score >= 0,
        remaining >= 0,
    ensures
        ({
            let (s, rem) = halvings(score, remaining);
            &&& 0 <= s <= score
            &&& 0 <= rem <= remaining
            &&& (s > 0 ==> rem < HALF_LIFE_SECS)
        }),
    decreases remaining,
{
    if remaining >= HALF_LIFE_SECS && score > 0 {
        lemma_halvings(score / 2, remaining - HALF_LIFE_SECS);
    }
}

/// Apply time-based decay to a score. Decay never raises a score, never
/// leaves it negative, and leaves a non-negative score unchanged when no
/// time has passed.
pub fn apply_decay(score: i128, elapsed_secs: u64) -> (r: i128)
    requires
        decay_computable(score as int, elapsed_secs as int),
    ensures
        r == decayed(score as int, elapsed_secs as int),
        0 <= r <= max0(score as int),
        elapsed_secs == 0 ==> r == max0(score as int),
{
    if score <= 0 || elapsed_secs == 0 {
        return if score > 0 {
            score
        } else {
            0
        };
    }
    let mut s = score;
    let mut remaining = elapsed_secs;
    proof {
        lemma_halvings(score as int, elapsed_secs as int);
    }
    while remaining >= HALF_LIFE_SECS && s > 0
        invariant
            0 <= s <= score,
            halvings(s as int, remaining as int) == halvings(score as int, elapsed_secs as int),
        decreases remaining,
    {
        s = s / 2;
        remaining = remaining - HALF_LIFE_SECS;
    }
    if remaining > 0 && s > 0 {
        proof {
            let p = s as int * remaining as int;
            assert(p >= 0) by (nonlinear_arith)
                requires
                    s >= 0,
                    remaining >= 0,
                    p == s as int * remaining as int,
            ;
            lemma_tdiv_nonneg(p, 2 * HALF_LIFE_SECS);
        }
        let decay_frac = div_i128(s * (remaining as i128), 2 * HALF_LIFE_SECS as i128);
        s = if s - decay_frac > 0 {
            s - decay_frac
        } else {
            0
        };
    }
    if s > 0 {
        s
    } else {
        0
    }
}

/// Reputation token records: one token per account and its recent history.
pub struct ReputationBook {
    tokens: Table<Address, ReputationToken>,
    history: Table<Address, Vec<RepTokenHistory>>,
}

/// The history after adding `entry`: the oldest entry gives way once the
/// history holds `HISTORY_SIZE` entries.
pub open spec fn pushed(history: Seq<RepTokenHistory>, entry: RepTokenHistory) -> Seq<RepTokenHistory> {
    if history.len() >= HISTORY_SIZE {
        history.subrange(1, history.len() as int).push(entry)
    } else {
        history.push(entry)
    }
}

/// The token of `account` as stored, or a fresh one stamped `now`.
pub open spec fn loaded(tokens: Map<Address, ReputationToken>, account: Address, now: u64) -> ReputationToken {
    if tokens.contains_key(account) {
        tokens[account]
    } else {
        ReputationToken { owner: account, score: 0, last_updated: now, total_minted: 0, total_decayed: 0 }
    }
}

pub open spec fn saturating_elapsed(now: u64, since: u64) -> int {
    if now >= since {
        now - since
    } else {
        0
    }
}

pub open spec fn abs(x: int) -> int {
    if x < 0 {
        -x
    } else {
        x
    }
}

/// The score gained from tipping `amount`: `SCORE_PER_UNIT` per unit.
pub open spec fn gain_of(amount: i128) -> int {
    amount * SCORE_PER_UNIT
}

/// `tok`'s score decayed up to `now`.
pub open spec fn decayed_by(tok: ReputationToken, now: u64) -> int {
    decayed(tok.score as int, saturating_elapsed(now, tok.last_updated))
}

/// Minting `amount` at `now` on `tok` stays within `i128`.
pub open spec fn mint_computable(tok: ReputationToken, now: u64, amount: i128) -> bool {
    let d = decayed_by(tok, now);
    let g = gain_of(amount);
    &&& decay_computable(tok.score as int, saturating_elapsed(now, tok.last_updated))
    &&& fits(g)
    &&& fits(d + g)
    &&& fits(tok.total_minted + g)
    &&& fits(d - tok.score)
    &&& fits(tok.total_decayed + abs(d - tok.score))
}

/// The token after minting `amount` at `now`: decayed up to `now`, then
/// raised by the gain; the decay it went through counts as decayed.
pub open spec fn minted(tok: ReputationToken, now: u64, amount: i128) -> ReputationToken {
    let d = decayed_by(tok, now);
    let g = gain_of(amount);
    ReputationToken {
        owner: tok.owner,
        score: (d + g) as i128,
        last_updated: now,
        total_minted: (tok.total_minted + g) as i128,
        total_decayed: (tok.total_decayed + abs(d - tok.score)) as i128,
    }
}

/// The history after a mint: the gain first, then the decay, if the score
/// decayed.
pub open spec fn mint_history(
    history: Seq<RepTokenHistory>,
    tok: ReputationToken,
    now: u64,
    amount: i128,
) -> Seq<RepTokenHistory> {
    let d = decayed_by(tok, now);
    let g = gain_of(amount);
    let h = pushed(history, RepTokenHistory { delta: g as i128, score_after: (d + g) as i128, timestamp: now, is_decay: false });
    if d != tok.score {
        pushed(h, RepTokenHistory { delta: (d - tok.score) as i128, score_after: d as i128, timestamp: now, is_decay: true })
    } else {
        h
    }
}

/// Decaying `tok` up to `now` stays within `i128`.
pub open spec fn decay_step_computable(tok: ReputationToken, now: u64) -> bool {
    let d = decayed_by(tok, now);
    &&& decay_computable(tok.score as int, saturating_elapsed(now, tok.last_updated))
    &&& fits(d - tok.score)
    &&& fits(tok.total_decayed + abs(d - tok.score))
}

/// The token after an explicit decay at `now`.
pub open spec fn decayed_token(tok: ReputationToken, now: u64) -> ReputationToken {
    let d = decayed_by(tok, now);
    ReputationToken {
        owner: tok.owner,
        score: d as i128,
        last_updated: now,
        total_minted: tok.total_minted,
        total_decayed: (tok.total_decayed + abs(d - tok.score)) as i128,
    }
}

/// A score halves over one half-life.
pub proof fn lemma_half_life(score: int)
    requires
        score > 0,
    ensures
        decayed(score, HALF_LIFE_SECS as int) == score / 2,
{
    assert(halvings(score / 2, 0) == (score / 2, 0int));
    assert(halvings(score, HALF_LIFE_SECS as int) == (score / 2, 0int));
}

proof fn lemma_halvings_whole(s: int, k: nat)
    requires
        s >= 0,
    ensures
        ({
            let (a, rem) = halvings(s, k * HALF_LIFE_SECS);
            &&& a == s / (pow2(k) as int)
            &&& (a > 0 ==> rem == 0)
        }),
    decreases k,
{
    lemma_pow2_pos(k);
    if k == 0 {
        lemma_pow2(0);
        lemma_pow0(2);
        assert(halvings(s, 0) == (s, 0int));
    } else if s == 0 {
        assert(k * HALF_LIFE_SECS >= 0) by (nonlinear_arith)
            requires
                k >= 0,
        ;
        assert(halvings(0, k * HALF_LIFE_SECS) == (0int, k * HALF_LIFE_SECS));
        assert(0int / (pow2(k) as int) == 0) by (nonlinear_arith)
            requires
                pow2(k) > 0,
        ;
    } else {
        let k1 = (k - 1) as nat;
        assert(k * HALF_LIFE_SECS == k1 * HALF_LIFE_SECS + HALF_LIFE_SECS && k1 * HALF_LIFE_SECS >= 0) by (nonlinear_arith)
            requires
                k1 == k - 1,
                k >= 1,
        ;
        assert(halvings(s, k * HALF_LIFE_SECS) == halvings(s / 2, k1 * HALF_LIFE_SECS));
        lemma_halvings_whole(s / 2, k1);
        lemma_pow2_unfold(k);
        lemma_pow2_pos(k1);
        lemma_div_denominator(s, 2, pow2(k1) as int);
    }
}

/// Over a whole number of half-lives a score halves once per half-life:
/// after `k` of them it is the score divided by `2^k`, rounded down.
pub proof fn lemma_whole_half_lives(score: int, k: nat)
    requires
        score >= 0,
    ensures
        decayed(score, k * HALF_LIFE_SECS) == score / (pow2(k) as int),
{
    lemma_halvings_whole(score, k);
    lemma_pow2_pos(k);
    assert(k * HALF_LIFE_SECS >= 0) by (nonlinear_arith)
        requires
            k >= 0,
    ;
    let q = score / (pow2(k) as int);
    assert(q >= 0) by (nonlinear_arith)
        requires
            score >= 0,
            pow2(k) > 0,
            q == score / (pow2(k) as int),
    ;
    if k == 0 {
        lemma_pow2(0);
        lemma_pow0(2);
    } else if score == 0 {
        assert(0int / (pow2(k) as int) == 0) by (nonlinear_arith)
            requires
                pow2(k) > 0,
        ;
    }
}

/// Past a whole half-life, decay is a halving followed by the decay of what
/// is left over.
proof fn lemma_decay_step(s: int, e: int)
    requires
        s > 0,
        e >= HALF_LIFE_SECS,
    ensures
        decayed(s, e) == decayed(s / 2, e - HALF_LIFE_SECS),
{
    assert(halvings(s, e) == halvings(s / 2, e - HALF_LIFE_SECS));
    if s / 2 > 0 && e - HALF_LIFE_SECS > 0 {
    } else if s / 2 <= 0 {
        assert(e - HALF_LIFE_SECS >= 0);
        assert(halvings(s / 2, e - HALF_LIFE_SECS) == (s / 2, e - HALF_LIFE_SECS));
    } else {
        assert(halvings(s / 2, 0) == (s / 2, 0int));
    }
}

/// Within the first half-life, decay only takes the linear part.
proof fn lemma_decay_linear(s: int, e: int)
    requires
        s > 0,
        0 < e < HALF_LIFE_SECS,
    ensures
        decayed(s, e) == max0(s - (s * e) / (2 * HALF_LIFE_SECS)),
        decayed(s, e) >= s / 2,
{
    assert(halvings(s, e) == (s, e));
    let x = (s * e) / (2 * HALF_LIFE_SECS);
    assert(x <= s / 2) by (nonlinear_arith)
        requires
            s > 0,
            0 < e < HALF_LIFE_SECS,
            x == (s * e) / (2 * HALF_LIFE_SECS),
    {
        vstd::arithmetic::div_mod::lemma_div_is_ordered(s * e, s * HALF_LIFE_SECS, 2 * HALF_LIFE_SECS);
        assert((s * HALF_LIFE_SECS) / (2 * HALF_LIFE_SECS) == s / 2) by {
            lemma_div_denominator(s * HALF_LIFE_SECS, HALF_LIFE_SECS as int, 2);
            vstd::arithmetic::div_mod::lemma_div_by_multiple(s, HALF_LIFE_SECS as int);
        }
    }
    assert(s - x >= s / 2);
}

/// Decay never gives more for a longer time: the later, the lower the
/// score.
pub proof fn lemma_decay_monotone(score: int, e1: int, e2: int)
    requires
        0 <= e1 <= e2,
    ensures
        decayed(score, e2) <= decayed(score, e1),
    decreases e1,
{
    lemma_decay_bounded(score, e2);
    lemma_decay_bounded(score, e1);
    if score <= 0 || e1 == 0 || e1 == e2 {
    } else if e1 < HALF_LIFE_SECS {
        lemma_decay_linear(score, e1);
        if e2 < HALF_LIFE_SECS {
            lemma_decay_linear(score, e2);
            assert(score * e1 <= score * e2) by (nonlinear_arith)
                requires
                    score > 0,
                    e1 <= e2,
            ;
            vstd::arithmetic::div_mod::lemma_div_is_ordered(score * e1, score * e2, 2 * HALF_LIFE_SECS);
        } else {
            lemma_decay_step(score, e2);
            lemma_decay_bounded(score / 2, e2 - HALF_LIFE_SECS);
        }
    } else {
        lemma_decay_step(score, e1);
        lemma_decay_step(score, e2);
        lemma_decay_monotone(score / 2, e1 - HALF_LIFE_SECS, e2 - HALF_LIFE_SECS);
    }
}

/// Decay leaves no score negative and raises none.
pub proof fn lemma_decay_bounded(score: int, elapsed: int)
    requires
        elapsed >= 0,
    ensures
        0 <= decayed(score, elapsed) <= max0(score),
{
    if score > 0 && elapsed != 0 {
        lemma_halvings(score, elapsed);
        let (s, rem) = halvings(score, elapsed);
        if rem > 0 && s > 0 {
            assert((s * rem) / (2 * HALF_LIFE_SECS) >= 0) by (nonlinear_arith)
                requires
                    s > 0,
                    rem > 0,
            ;
        }
    }
}

impl ReputationBook {
    /// Every stored token belongs to the account it is stored under, and no
    /// history holds more than `HISTORY_SIZE` entries.
    pub closed spec fn wf(&self) -> bool {
        &&& self.tokens.wf()
        &&& self.history.wf()
        &&& forall|a: Address| #[trigger] self.tokens@.contains_key(a) ==> self.tokens@[a].owner == a
        &&& forall|a: Address| #[trigger] self.history_of(a).len() <= HISTORY_SIZE
    }

    pub closed spec fn token_map(&self) -> Map<Address, ReputationToken> {
        self.tokens@
    }

    pub closed spec fn history_map(&self) -> Map<Address, Vec<RepTokenHistory>> {
        self.history@
    }

    /// The history of `account`, oldest first.
    pub open spec fn history_of(&self, account: Address) -> Seq<RepTokenHistory> {
        if self.history_map().contains_key(account) {
            self.history_map()[account]@
        } else {
            Seq::empty()
        }
    }

    /// No tokens and no history.
    pub fn new() -> (s: Self)
        ensures
            s.wf(),
            s.token_map() == Map::<Address, ReputationToken>::empty(),
            forall|a: Address| s.history_of(a).len() == 0,
    {
        ReputationBook { tokens: Table::new(), history: Table::new() }
    }

    /// Mint reputation for `account` from a tip of `amount` at time `now`:
    /// the score first decays up to `now`, then grows by `SCORE_PER_UNIT`
    /// per unit tipped.
    pub fn mint(&mut self, now: u64, account: Address, amount: i128)
        requires
            old(self).wf(),
            mint_computable(loaded(old(self).token_map(), account, now), now, amount),
        ensures
            final(self).wf(),
            final(self).token_map() == old(self).token_map().insert(
                account,
                minted(loaded(old(self).token_map(), account, now), now, amount),
            ),
            final(self).history_of(account) == mint_history(
                old(self).history_of(account),
                loaded(old(self).token_map(), account, now),
                now,
                amount,
            ),
            forall|a: Address| a != account ==> #[trigger] final(self).history_of(a) == old(self).history_of(a),
    {
        let ghost tok0 = loaded(self.token_map(), account, now);
        let ghost before = *self;
        let mut token = self.load_token(account, now);
        let elapsed = now.saturating_sub(token.last_updated);
        let old_score = token.score;
        token.score = apply_decay(token.score, elapsed);
        let gain = amount * SCORE_PER_UNIT;
        token.score = token.score + gain;
        token.total_minted = token.total_minted + gain;
        token.last_updated = now;
        self.push_history(
            account,
            RepTokenHistory { delta: gain, score_after: token.score, timestamp: now, is_decay: false },
        );
        if old_score != token.score - gain {
            let decay_delta = (token.score - gain) - old_score;
            if decay_delta != 0 {
                self.push_history(
                    account,
                    RepTokenHistory { delta: decay_delta, score_after: token.score - gain, timestamp: now, is_decay: true },
                );
                let mag = if decay_delta < 0 {
                    -decay_delta
                } else {
                    decay_delta
                };
                token.total_decayed = token.total_decayed + mag;
            }
        }
        proof {
            assert(token == minted(tok0, now, amount));
            assert forall|a: Address| a != account implies #[trigger] self.history_of(a) == before.history_of(a) by {}
        }
        self.save_token(token);
    }

    /// Apply the decay due up to `now` to the score of `account`. Nothing
    /// changes when no time has passed since its last update.
    pub fn decay(&mut self, now: u64, account: Address)
        requires
            old(self).wf(),
            decay_step_computable(loaded(old(self).token_map(), account, now), now),
        ensures
            final(self).wf(),
            ({
                let tok = loaded(old(self).token_map(), account, now);
                let d = decayed_by(tok, now);
                if saturating_elapsed(now, tok.last_updated) == 0 {
                    &&& final(self).token_map() == old(self).token_map()
                    &&& final(self).history_of(account) == old(self).history_of(account)
                } else {
                    &&& final(self).token_map() == old(self).token_map().insert(account, decayed_token(tok, now))
                    &&& final(self).history_of(account) == pushed(
                        old(self).history_of(account),
                        RepTokenHistory { delta: (d - tok.score) as i128, score_after: d as i128, timestamp: now, is_decay: true },
                    )
                }
            }),
            forall|a: Address| a != account ==> #[trigger] final(self).history_of(a) == old(self).history_of(a),
    {
        let ghost tok0 = loaded(self.token_map(), account, now);
        let mut token = self.load_token(account, now);
        let elapsed = now.saturating_sub(token.last_updated);
        if elapsed == 0 {
            return;
        }
        let old_score = token.score;
        token.score = apply_decay(token.score, elapsed);
        let delta = token.score - old_score;
        let mag = if delta < 0 {
            -delta
        } else {
            delta
        };
        token.total_decayed = token.total_decayed + mag;
        token.last_updated = now;
        self.push_history(
            account,
            RepTokenHistory { delta, score_after: token.score, timestamp: now, is_decay: true },
        );
        proof {
            assert(token == decayed_token(tok0, now));
        }
        self.save_token(token);
    }

    /// The current score of `account` at time `now`, decay included.
    pub fn get_score(&self, now: u64, account: Address) -> (r: i128)
        requires
            self.wf(),
            decay_computable(
                loaded(self.token_map(), account, now).score as int,
                saturating_elapsed(now, loaded(self.token_map(), account, now).last_updated),
            ),
        ensures
            r == decayed_by(loaded(self.token_map(), account, now), now),
            r >= 0,
    {
        let token = self.load_token(account, now);
        let elapsed = now.saturating_sub(token.last_updated);
        apply_decay(token.score, elapsed)
    }

    /// The stored token record of `account`, or a fresh one stamped `now`.
    pub fn get_token(&self, now: u64, account: Address) -> (r: ReputationToken)
        requires
            self.wf(),
        ensures
            r == loaded(self.token_map(), account, now),
    {
        self.load_token(account, now)
    }

    /// The reputation history of `account`, oldest first.
    pub fn get_history(&self, account: Address) -> (r: Vec<RepTokenHistory>)
        requires
            self.wf(),
        ensures
            r@ == self.history_of(account),
            r@.len() <= HISTORY_SIZE,
    {
        proof {
            assert(self.history_of(account).len() <= HISTORY_SIZE);
        }
        match self.history.get(&account) {
            Some(h) => copy_list(h),
            None => Vec::new(),
        }
    }

    fn load_token(&self, account: Address, now: u64) -> (r: ReputationToken)
        requires
            self.wf(),
        ensures
            r == loaded(self.token_map(), account, now),
    {
        match self.tokens.get(&account) {
            Some(t) => *t,
            None => ReputationToken { owner: account, score: 0, last_updated: now, total_minted: 0, total_decayed: 0 },
        }
    }

    fn save_token(&mut self, token: ReputationToken)
        requires
            old(self).wf(),
        ensures
            final(self).wf(),
            final(self).token_map() == old(self).token_map().insert(token.owner, token),
            final(self).history_map() == old(self).history_map(),
            forall|a: Address| #[trigger] final(self).history_of(a) == old(self).history_of(a),
    {
        self.tokens.insert(token.owner, token);
        proof {
            assert forall|a: Address| #[trigger] self.history_of(a).len() <= HISTORY_SIZE by {
                assert(old(self).history_of(a).len() <= HISTORY_SIZE);
            }
        }
    }

    fn push_history(&mut self, account: Address, entry: RepTokenHistory)
        requires
            old(self).wf(),
        ensures
            final(self).wf(),
            final(self).history_of(account) == pushed(old(self).history_of(account), entry),
            forall|a: Address| a != account ==> #[trigger] final(self).history_of(a) == old(self).history_of(a),
            final(self).token_map() == old(self).token_map(),
    {
        let hist = match self.history.remove(&account) {
            Some(h) => h,
            None => Vec::new(),
        };
        proof {
            assert(hist@ == old(self).history_of(account));
            assert(old(self).history_of(account).len() <= HISTORY_SIZE);
        }
        let mut next: Vec<RepTokenHistory> = Vec::new();
        let start: usize = if hist.len() >= HISTORY_SIZE as usize {
            1
        } else {
            0
        };
        let mut i: usize = start;
        while i < hist.len()
            invariant
                start <= i <= hist@.len(),
                next@ == hist@.subrange(start as int, i as int),
            decreases hist@.len() - i,
        {
            next.push(hist[i]);
            proof {
                assert(hist@.subrange(start as int, i + 1) =~= hist@.subrange(start as int, i as int).push(
                    hist@[i as int],
                ));
            }
            i = i + 1;
        }
        next.push(entry);
        proof {
            if start == 0 {
                assert(hist@.subrange(0, hist@.len() as int) =~= hist@);
            }
        }
        self.history.insert(account, next);
        proof {
            assert forall|a: Address| a != account implies #[trigger] self.history_of(a) == old(self).history_of(a) by {
                assert(self.history_map().contains_key(a) == old(self).history_map().contains_key(a));
            }
            assert forall|a: Address| #[trigger] self.history_of(a).len() <= HISTORY_SIZE by {
                if a != account {
                    assert(old(self).history_of(a).len() <= HISTORY_SIZE);
                }
            }
        }
    }
}

} // verus!
