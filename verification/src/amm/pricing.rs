//! Price calculation utilities for AMM

use vstd::prelude::*;

use super::swap::{calculate_output, div_ok, orient, oriented, output_amount, output_computable};
use super::{Amm, AmmError};
use crate::ledger::{div_i128, fits, tdiv, Address};

verus! {

/// `num * 10000 / den`, zero where `den` is zero.
pub open spec fn ratio_bps(num: int, den: int) -> int {
    if den == 0 {
        0
    } else {
        tdiv(num * 10000, den)
    }
}

/// [`ratio_bps`] can be computed on `i128` without a fault.
pub open spec fn ratio_computable(num: int, den: int) -> bool {
    den == 0 || (fits(num * 10000) && div_ok(num * 10000, den))
}

fn ratio(num: i128, den: i128) -> (r: i128)
    requires
        ratio_computable(num as int, den as int),
    ensures
        r == ratio_bps(num as int, den as int),
{
    if den == 0 {
        0
    } else {
        div_i128(num * 10000, den)
    }
}

/// The price of `token`: the other reserve over its own, in basis points.
pub open spec fn price_of(reserve_own: int, reserve_other: int) -> int {
    ratio_bps(reserve_other, reserve_own)
}

/// The input that should buy `desired_output`: `reserve_in * desired_output * 10000`
/// over `(reserve_out - desired_output) * (10000 - fee_bps)`, plus one; zero
/// for an output that is not positive or not below the reserve.
pub open spec fn optimal_input(reserve_in: int, reserve_out: int, fee_bps: int, desired_output: int) -> int {
    if desired_output <= 0 || desired_output >= reserve_out {
        0
    } else {
        tdiv(reserve_in * desired_output * 10000, (reserve_out - desired_output) * (10000 - fee_bps)) + 1
    }
}

/// [`optimal_input`] can be computed on `i128` without a fault.
pub open spec fn optimal_input_computable(reserve_in: int, reserve_out: int, fee_bps: int, desired_output: int) -> bool {
    desired_output <= 0 || desired_output >= reserve_out || {
        let n = reserve_in * desired_output * 10000;
        let d = (reserve_out - desired_output) * (10000 - fee_bps);
        &&& fits(reserve_in * desired_output)
        &&& fits(n)
        &&& fits(reserve_out - desired_output)
        &&& fits(d)
        &&& div_ok(n, d)
        &&& fits(tdiv(n, d) + 1)
    }
}

impl Amm {
    /// Get current price for `token_a` in terms of the pool's other token, in basis points.
    pub fn get_price(&self, pool_id: u64, token_a: Address) -> (r: Result<i128, AmmError>)
        requires
            self.wf(),
            self.pools().contains_key(pool_id) ==> match oriented(self.pools()[pool_id], token_a) {
                Some((own, other)) => ratio_computable(other as int, own as int),
                None => true,
            },
        ensures
            !self.pools().contains_key(pool_id) ==> r == Err::<i128, AmmError>(AmmError::PoolNotFound),
            self.pools().contains_key(pool_id) ==> match oriented(self.pools()[pool_id], token_a) {
                Some((own, other)) => r == Ok::<i128, AmmError>(price_of(own as int, other as int) as i128),
                None => r == Err::<i128, AmmError>(AmmError::TokenNotInPool),
            },
    {
        let pool = match self.pools.get(&pool_id) {
            Some(p) => *p,
            None => {
                return Err(AmmError::PoolNotFound);
            },
        };
        match orient(&pool, token_a) {
            Some((own, other)) => Ok(ratio(other, own)),
            None => Err(AmmError::TokenNotInPool),
        }
    }

    /// Get pool liquidity value
    pub fn get_liquidity_value(&self, pool_id: u64) -> (r: Result<(i128, i128), AmmError>)
        requires
            self.wf(),
        ensures
            r == (if self.pools().contains_key(pool_id) {
                Ok::<(i128, i128), AmmError>(
                    (self.pools()[pool_id].reserve_a, self.pools()[pool_id].reserve_b),
                )
            } else {
                Err(AmmError::PoolNotFound)
            }),
    {
        self.get_reserves(pool_id)
    }

    /// Get pool utilization rate: both reserves together over the total
    /// shares, in basis points; zero for a pool without shares.
    pub fn get_utilization_rate(&self, pool_id: u64) -> (r: Result<i128, AmmError>)
        requires
            self.wf(),
            self.pools().contains_key(pool_id) ==> {
                let p = self.pools()[pool_id];
                fits(p.reserve_a + p.reserve_b) && ratio_computable(
                    p.reserve_a + p.reserve_b,
                    p.total_shares as int,
                )
            },
        ensures
            r == (if self.pools().contains_key(pool_id) {
                let p = self.pools()[pool_id];
                Ok::<i128, AmmError>(ratio_bps(p.reserve_a + p.reserve_b, p.total_shares as int) as i128)
            } else {
                Err(AmmError::PoolNotFound)
            }),
    {
        let pool = match self.pools.get(&pool_id) {
            Some(p) => *p,
            None => {
                return Err(AmmError::PoolNotFound);
            },
        };
        if pool.total_shares == 0 {
            return Ok(0);
        }
        let total_value = pool.reserve_a + pool.reserve_b;
        Ok(ratio(total_value, pool.total_shares))
    }

    /// Calculate optimal input amount for desired output
    pub fn calculate_optimal_input(&self, pool_id: u64, token_in: Address, desired_output: i128) -> (r: Result<
        i128,
        AmmError,
    >)
        requires
            self.wf(),
            self.pools().contains_key(pool_id) ==> match oriented(self.pools()[pool_id], token_in) {
                Some((ri, ro)) => optimal_input_computable(
                    ri as int,
                    ro as int,
                    self.pools()[pool_id].fee_bps as int,
                    desired_output as int,
                ),
                None => true,
            },
        ensures
            !self.pools().contains_key(pool_id) ==> r == Err::<i128, AmmError>(AmmError::PoolNotFound),
            self.pools().contains_key(pool_id) ==> match oriented(self.pools()[pool_id], token_in) {
                Some((ri, ro)) => r == Ok::<i128, AmmError>(
                    optimal_input(
                        ri as int,
                        ro as int,
                        self.pools()[pool_id].fee_bps as int,
                        desired_output as int,
                    ) as i128,
                ),
                None => r == Err::<i128, AmmError>(AmmError::TokenNotInPool),
            },
    {
        let pool = match self.pools.get(&pool_id) {
            Some(p) => *p,
            None => {
                return Err(AmmError::PoolNotFound);
            },
        };
        let (reserve_in, reserve_out) = match orient(&pool, token_in) {
            Some(rs) => rs,
            None => {
                return Err(AmmError::TokenNotInPool);
            },
        };
        if desired_output <= 0 || desired_output >= reserve_out {
            return Ok(0);
        }
        let numerator = reserve_in * desired_output * 10000;
        let denominator = (reserve_out - desired_output) * (10000 - pool.fee_bps as i128);
        Ok(div_i128(numerator, denominator) + 1)
    }

    /// Calculate optimal output amount for given input
    pub fn calculate_optimal_output(&self, pool_id: u64, token_in: Address, amount_in: i128) -> (r: Result<
        i128,
        AmmError,
    >)
        requires
            self.wf(),
            self.pools().contains_key(pool_id) ==> match oriented(self.pools()[pool_id], token_in) {
                Some((ri, ro)) => output_computable(
                    amount_in as int,
                    ri as int,
                    ro as int,
                    self.pools()[pool_id].fee_bps as int,
                ),
                None => true,
            },
        ensures
            !self.pools().contains_key(pool_id) ==> r == Err::<i128, AmmError>(AmmError::PoolNotFound),
            self.pools().contains_key(pool_id) ==> match oriented(self.pools()[pool_id], token_in) {
                Some((ri, ro)) => r == Ok::<i128, AmmError>(
                    output_amount(amount_in as int, ri as int, ro as int, self.pools()[pool_id].fee_bps as int)
                        as i128,
                ),
                None => r == Err::<i128, AmmError>(AmmError::TokenNotInPool),
            },
    {
        let pool = match self.pools.get(&pool_id) {
            Some(p) => *p,
            None => {
                return Err(AmmError::PoolNotFound);
            },
        };
        match orient(&pool, token_in) {
            Some((reserve_in, reserve_out)) => Ok(
                calculate_output(amount_in, reserve_in, reserve_out, pool.fee_bps),
            ),
            None => Err(AmmError::TokenNotInPool),
        }
    }

    /// Get mid price: zero while either reserve is empty, else the price of
    /// `token_a` as [`Amm::get_price`] gives it.
    pub fn get_mid_price(&self, pool_id: u64, token_a: Address) -> (r: Result<i128, AmmError>)
        requires
            self.wf(),
            self.pools().contains_key(pool_id) ==> match oriented(self.pools()[pool_id], token_a) {
                Some((own, other)) => ratio_computable(other as int, own as int),
                None => true,
            },
        ensures
            !self.pools().contains_key(pool_id) ==> r == Err::<i128, AmmError>(AmmError::PoolNotFound),
            self.pools().contains_key(pool_id) ==> {
                let p = self.pools()[pool_id];
                if p.reserve_a == 0 || p.reserve_b == 0 {
                    r == Ok::<i128, AmmError>(0)
                } else {
                    match oriented(p, token_a) {
                        Some((own, other)) => r == Ok::<i128, AmmError>(
                            price_of(own as int, other as int) as i128,
                        ),
                        None => r == Err::<i128, AmmError>(AmmError::TokenNotInPool),
                    }
                }
            },
    {
        let pool = match self.pools.get(&pool_id) {
            Some(p) => *p,
            None => {
                return Err(AmmError::PoolNotFound);
            },
        };
        if pool.reserve_a == 0 || pool.reserve_b == 0 {
            return Ok(0);
        }
        match orient(&pool, token_a) {
            Some((own, other)) => Ok(ratio(other, own)),
            None => Err(AmmError::TokenNotInPool),
        }
    }
}

} // verus!
