//! Liquidity pool operations

use vstd::prelude::*;

use super::swap::div_ok;
use super::{Amm, AmmError, LiquidityPool};
use crate::ledger::{div_i128, fits, lemma_tdiv_nonneg, tdiv, Address, Transfer};
use crate::math::{floor_sqrt, is_floor_sqrt, isqrt, lemma_floor_sqrt_is};

verus! {

pub open spec fn min_int(a: int, b: int) -> int {
    if a < b {
        a
    } else {
        b
    }
}

/// The shares that a deposit of `amount_a` and `amount_b` mints: the integer
/// geometric mean of the amounts into an empty pool, else the smaller of the
/// two proportional shares.
pub open spec fn minted_shares(pool: LiquidityPool, amount_a: int, amount_b: int) -> int {
    if pool.total_shares == 0 {
        floor_sqrt(amount_a * amount_b)
    } else {
        min_int(
            tdiv(amount_a * pool.total_shares, pool.reserve_a as int),
            tdiv(amount_b * pool.total_shares, pool.reserve_b as int),
        )
    }
}

/// Into a pool that has shares outstanding, a deposit mints the largest whole
/// number of shares worth no more than either amount at the pool's ratio: the
/// shares are no more than either proportional share, and one more share
/// would be worth more than one of the amounts.
pub proof fn lemma_minted_shares_proportional(pool: LiquidityPool, amount_a: int, amount_b: int)
    requires
        pool.total_shares > 0,
        pool.reserve_a > 0,
        pool.reserve_b > 0,
        amount_a >= 0,
        amount_b >= 0,
    ensures
        ({
            let s = minted_shares(pool, amount_a, amount_b);
            let t = pool.total_shares as int;
            &&& 0 <= s
            &&& s * pool.reserve_a <= amount_a * t
            &&& s * pool.reserve_b <= amount_b * t
            &&& amount_a * t < (s + 1) * pool.reserve_a || amount_b * t < (s + 1) * pool.reserve_b
        }),
{
    let t = pool.total_shares as int;
    let ra = pool.reserve_a as int;
    let rb = pool.reserve_b as int;
    let na = amount_a * t;
    let nb = amount_b * t;
    assert(na >= 0 && nb >= 0) by (nonlinear_arith)
        requires
            amount_a >= 0,
            amount_b >= 0,
            t > 0,
            na == amount_a * t,
            nb == amount_b * t,
    ;
    lemma_tdiv_nonneg(na, ra);
    lemma_tdiv_nonneg(nb, rb);
    let qa = na / ra;
    let qb = nb / rb;
    assert(qa * ra <= na < (qa + 1) * ra && qa >= 0) by (nonlinear_arith)
        requires
            qa == na / ra,
            ra > 0,
            na >= 0,
    ;
    assert(qb * rb <= nb < (qb + 1) * rb && qb >= 0) by (nonlinear_arith)
        requires
            qb == nb / rb,
            rb > 0,
            nb >= 0,
    ;
    let s = minted_shares(pool, amount_a, amount_b);
    assert(s == min_int(qa, qb));
    if qa < qb {
        assert(s * rb <= nb) by (nonlinear_arith)
            requires
                s == qa,
                qa < qb,
                qb * rb <= nb,
                rb > 0,
        ;
    } else {
        assert(s * ra <= na) by (nonlinear_arith)
            requires
                s == qb,
                qb <= qa,
                qa * ra <= na,
                ra > 0,
        ;
    }
}

/// A deposit can be carried out on `i128` without a fault, the provider
/// holding `held` shares.
pub open spec fn add_computable(pool: LiquidityPool, held: int, amount_a: int, amount_b: int) -> bool {
    let t = pool.total_shares as int;
    let s = minted_shares(pool, amount_a, amount_b);
    &&& t == 0 ==> fits(amount_a * amount_b)
    &&& t != 0 ==> {
        &&& fits(amount_a * t)
        &&& fits(amount_b * t)
        &&& div_ok(amount_a * t, pool.reserve_a as int)
        &&& div_ok(amount_b * t, pool.reserve_b as int)
    }
    &&& s > 0 ==> {
        &&& fits(pool.reserve_a + amount_a)
        &&& fits(pool.reserve_b + amount_b)
        &&& fits(t + s)
        &&& fits(held + s)
    }
}

/// The amounts that burning `shares` pays out: the same fraction of each reserve.
pub open spec fn withdrawn_amounts(pool: LiquidityPool, shares: int) -> (int, int) {
    (
        tdiv(shares * pool.reserve_a, pool.total_shares as int),
        tdiv(shares * pool.reserve_b, pool.total_shares as int),
    )
}

/// A withdrawal can be carried out on `i128` without a fault, the provider
/// holding `held` shares.
pub open spec fn remove_computable(pool: LiquidityPool, held: int, shares: int) -> bool {
    let t = pool.total_shares as int;
    let (amount_a, amount_b) = withdrawn_amounts(pool, shares);
    held >= shares ==> {
        &&& fits(shares * pool.reserve_a)
        &&& fits(shares * pool.reserve_b)
        &&& div_ok(shares * pool.reserve_a, t)
        &&& div_ok(shares * pool.reserve_b, t)
        &&& (amount_a > 0 && amount_b > 0) ==> {
            &&& fits(pool.reserve_a - amount_a)
            &&& fits(pool.reserve_b - amount_b)
            &&& fits(t - shares)
        }
    }
}

/// The integer square root of a positive `n`, for every `n` up to
/// `i128::MAX`.
fn square_root(n: i128) -> (r: i128)
    requires
        n > 0,
    ensures
        is_floor_sqrt(n as int, r as int),
{
    if n == i128::MAX {
        let r: i128 = 13_043_817_825_332_782_212;
        assert(r * r <= n && n < (r + 1) * (r + 1));
        r
    } else {
        isqrt(n)
    }
}

impl Amm {
    /// Add liquidity to a pool: `provider` deposits both amounts and receives
    /// the shares they mint.
    pub fn add_liquidity(&mut self, pool_id: u64, provider: Address, amount_a: i128, amount_b: i128) -> (r:
        Result<(i128, Vec<Transfer>), AmmError>)
        requires
            old(self).wf(),
            amount_a > 0 && amount_b > 0 && old(self).pools().contains_key(pool_id) ==> add_computable(
                old(self).pools()[pool_id],
                old(self).shares_of(pool_id, provider) as int,
                amount_a as int,
                amount_b as int,
            ),
        ensures
            final(self).wf(),
            r is Err ==> *final(self) == *old(self),
            amount_a <= 0 || amount_b <= 0 ==> r == Err::<(i128, Vec<Transfer>), AmmError>(
                AmmError::InvalidAmount,
            ),
            amount_a > 0 && amount_b > 0 && !old(self).pools().contains_key(pool_id) ==> r == Err::<
                (i128, Vec<Transfer>),
                AmmError,
            >(AmmError::PoolNotFound),
            amount_a > 0 && amount_b > 0 && old(self).pools().contains_key(pool_id) ==> {
                let pool = old(self).pools()[pool_id];
                let s = minted_shares(pool, amount_a as int, amount_b as int);
                &&& s <= 0 ==> r == Err::<(i128, Vec<Transfer>), AmmError>(AmmError::InvalidShareAmount)
                &&& s > 0 ==> r is Ok
                &&& r matches Ok((shares, transfers)) ==> {
                    &&& shares == s
                    &&& pool.total_shares == 0 ==> is_floor_sqrt(amount_a * amount_b, shares as int)
                    &&& pool.total_shares != 0 ==> {
                        let share_a = tdiv(amount_a * pool.total_shares, pool.reserve_a as int);
                        let share_b = tdiv(amount_b * pool.total_shares, pool.reserve_b as int);
                        &&& shares <= share_a
                        &&& shares <= share_b
                        &&& shares == share_a || shares == share_b
                    }
                    &&& final(self).pools() == old(self).pools().insert(
                        pool_id,
                        LiquidityPool {
                            reserve_a: (pool.reserve_a + amount_a) as i128,
                            reserve_b: (pool.reserve_b + amount_b) as i128,
                            total_shares: (pool.total_shares + s) as i128,
                            ..pool
                        },
                    )
                    &&& final(self).share_map() == old(self).share_map().insert(
                        (pool_id, provider),
                        (old(self).shares_of(pool_id, provider) + s) as i128,
                    )
                    &&& final(self).pair_index() == old(self).pair_index()
                    &&& final(self).counter() == old(self).counter()
                    &&& transfers@ == seq![
                        Transfer::Deposit { token: pool.token_a, from: provider, amount: amount_a },
                        Transfer::Deposit { token: pool.token_b, from: provider, amount: amount_b },
                    ]
                }
            },
    {
        if amount_a <= 0 || amount_b <= 0 {
            return Err(AmmError::InvalidAmount);
        }
        let pool = match self.pools.get(&pool_id) {
            Some(p) => *p,
            None => {
                return Err(AmmError::PoolNotFound);
            },
        };
        let held = self.get_user_shares(pool_id, provider);
        let shares = if pool.total_shares == 0 {
            proof {
                assert(amount_a * amount_b > 0) by (nonlinear_arith)
                    requires
                        amount_a > 0,
                        amount_b > 0,
                ;
            }
            let root = square_root(amount_a * amount_b);
            proof {
                lemma_floor_sqrt_is(amount_a * amount_b, root as int);
            }
            root
        } else {
            let share_a = div_i128(amount_a * pool.total_shares, pool.reserve_a);
            let share_b = div_i128(amount_b * pool.total_shares, pool.reserve_b);
            if share_a < share_b {
                share_a
            } else {
                share_b
            }
        };
        if shares <= 0 {
            return Err(AmmError::InvalidShareAmount);
        }
        let mut new_pool = pool;
        new_pool.reserve_a = pool.reserve_a + amount_a;
        new_pool.reserve_b = pool.reserve_b + amount_b;
        new_pool.total_shares = pool.total_shares + shares;
        self.pools.insert(pool_id, new_pool);
        self.liquidity_shares.insert((pool_id, provider), held + shares);
        let mut transfers: Vec<Transfer> = Vec::new();
        transfers.push(Transfer::Deposit { token: pool.token_a, from: provider, amount: amount_a });
        transfers.push(Transfer::Deposit { token: pool.token_b, from: provider, amount: amount_b });
        Ok((shares, transfers))
    }

    /// Remove liquidity from a pool: `provider` burns `shares` and receives
    /// the same fraction of each reserve.
    pub fn remove_liquidity(&mut self, pool_id: u64, provider: Address, shares: i128) -> (r: Result<
        ((i128, i128), Vec<Transfer>),
        AmmError,
    >)
        requires
            old(self).wf(),
            shares > 0 && old(self).pools().contains_key(pool_id) ==> remove_computable(
                old(self).pools()[pool_id],
                old(self).shares_of(pool_id, provider) as int,
                shares as int,
            ),
        ensures
            final(self).wf(),
            r is Err ==> *final(self) == *old(self),
            shares <= 0 ==> r == Err::<((i128, i128), Vec<Transfer>), AmmError>(AmmError::InvalidAmount),
            shares > 0 && !old(self).pools().contains_key(pool_id) ==> r == Err::<
                ((i128, i128), Vec<Transfer>),
                AmmError,
            >(AmmError::PoolNotFound),
            shares > 0 && old(self).pools().contains_key(pool_id) ==> {
                let pool = old(self).pools()[pool_id];
                let held = old(self).shares_of(pool_id, provider);
                let (amount_a, amount_b) = withdrawn_amounts(pool, shares as int);
                &&& held < shares ==> r == Err::<((i128, i128), Vec<Transfer>), AmmError>(
                    AmmError::InsufficientShares,
                )
                &&& held >= shares && (amount_a <= 0 || amount_b <= 0) ==> r == Err::<
                    ((i128, i128), Vec<Transfer>),
                    AmmError,
                >(AmmError::InvalidWithdrawal)
                &&& held >= shares && amount_a > 0 && amount_b > 0 ==> r is Ok
                &&& r matches Ok((amounts, transfers)) ==> {
                    &&& amounts == (amount_a as i128, amount_b as i128)
                    &&& final(self).pools() == old(self).pools().insert(
                        pool_id,
                        LiquidityPool {
                            reserve_a: (pool.reserve_a - amount_a) as i128,
                            reserve_b: (pool.reserve_b - amount_b) as i128,
                            total_shares: (pool.total_shares - shares) as i128,
                            ..pool
                        },
                    )
                    &&& final(self).share_map() == old(self).share_map().insert(
                        (pool_id, provider),
                        (held - shares) as i128,
                    )
                    &&& final(self).pair_index() == old(self).pair_index()
                    &&& final(self).counter() == old(self).counter()
                    &&& transfers@ == seq![
                        Transfer::Payout { token: pool.token_a, to: provider, amount: amount_a as i128 },
                        Transfer::Payout { token: pool.token_b, to: provider, amount: amount_b as i128 },
                    ]
                }
            },
    {
        if shares <= 0 {
            return Err(AmmError::InvalidAmount);
        }
        let pool = match self.pools.get(&pool_id) {
            Some(p) => *p,
            None => {
                return Err(AmmError::PoolNotFound);
            },
        };
        let user_shares = self.get_user_shares(pool_id, provider);
        if user_shares < shares {
            return Err(AmmError::InsufficientShares);
        }
        let amount_a = div_i128(shares * pool.reserve_a, pool.total_shares);
        let amount_b = div_i128(shares * pool.reserve_b, pool.total_shares);
        if amount_a <= 0 || amount_b <= 0 {
            return Err(AmmError::InvalidWithdrawal);
        }
        let mut new_pool = pool;
        new_pool.reserve_a = pool.reserve_a - amount_a;
        new_pool.reserve_b = pool.reserve_b - amount_b;
        new_pool.total_shares = pool.total_shares - shares;
        self.pools.insert(pool_id, new_pool);
        self.liquidity_shares.insert((pool_id, provider), user_shares - shares);
        let mut transfers: Vec<Transfer> = Vec::new();
        transfers.push(Transfer::Payout { token: pool.token_a, to: provider, amount: amount_a });
        transfers.push(Transfer::Payout { token: pool.token_b, to: provider, amount: amount_b });
        Ok(((amount_a, amount_b), transfers))
    }

    /// Get pool reserves
    pub fn get_reserves(&self, pool_id: u64) -> (r: Result<(i128, i128), AmmError>)
        requires
            self.wf(),
        ensures
            r == (if self.pools().contains_key(pool_id) {
                Ok::<(i128, i128), AmmError>(
                    (self.pools()[pool_id].reserve_a, self.pools()[pool_id].reserve_b),
                )
            } else {
                Err(AmmError::PoolNotFound)
            }),
    {
        match self.pools.get(&pool_id) {
            Some(p) => Ok((p.reserve_a, p.reserve_b)),
            None => Err(AmmError::PoolNotFound),
        }
    }

    /// Get pool total shares
    pub fn get_total_shares(&self, pool_id: u64) -> (r: Result<i128, AmmError>)
        requires
            self.wf(),
        ensures
            r == (if self.pools().contains_key(pool_id) {
                Ok::<i128, AmmError>(self.pools()[pool_id].total_shares)
            } else {
                Err(AmmError::PoolNotFound)
            }),
    {
        match self.pools.get(&pool_id) {
            Some(p) => Ok(p.total_shares),
            None => Err(AmmError::PoolNotFound),
        }
    }

    /// Get pool fee
    pub fn get_pool_fee(&self, pool_id: u64) -> (r: Result<u32, AmmError>)
        requires
            self.wf(),
        ensures
            r == (if self.pools().contains_key(pool_id) {
                Ok::<u32, AmmError>(self.pools()[pool_id].fee_bps)
            } else {
                Err(AmmError::PoolNotFound)
            }),
    {
        match self.pools.get(&pool_id) {
            Some(p) => Ok(p.fee_bps),
            None => Err(AmmError::PoolNotFound),
        }
    }
}

} // verus!
