//! Swaps on a liquidity pool: the constant-product formula and the swap
//! operation itself.

use vstd::prelude::*;

use super::{Amm, AmmError, LiquidityPool, SwapResult};
use crate::ledger::{div_i128, fits, lemma_tdiv_nonneg, tdiv, Address, Transfer};

verus! {

/// `n / d` can be computed on `i128` without a fault.
pub open spec fn div_ok(n: int, d: int) -> bool {
    d != 0 && !(n == i128::MIN && d == -1)
}

/// The input that is left once the fee is taken: `amount_in * (10000 - fee_bps) / 10000`.
pub open spec fn input_after_fee(amount_in: int, fee_bps: int) -> int {
    tdiv(amount_in * (10000 - fee_bps), 10000)
}

/// What a swap of `amount_in` pays out of a pool holding `reserve_in` and
/// `reserve_out`: zero unless all three are positive, else
/// `w * reserve_out / (reserve_in + w)` where `w` is the input after the fee.
pub open spec fn output_amount(amount_in: int, reserve_in: int, reserve_out: int, fee_bps: int) -> int {
    if amount_in <= 0 || reserve_in <= 0 || reserve_out <= 0 {
        0
    } else {
        let w = input_after_fee(amount_in, fee_bps);
        tdiv(w * reserve_out, reserve_in + w)
    }
}

/// The formula of [`output_amount`] stays within `i128` and divides by no zero.
pub open spec fn output_computable(amount_in: int, reserve_in: int, reserve_out: int, fee_bps: int) -> bool {
    amount_in <= 0 || reserve_in <= 0 || reserve_out <= 0 || {
        let w = input_after_fee(amount_in, fee_bps);
        &&& fits(amount_in * (10000 - fee_bps))
        &&& fits(w * reserve_out)
        &&& fits(reserve_in + w)
        &&& div_ok(w * reserve_out, reserve_in + w)
    }
}

/// `w * reserve_out / (reserve_in + w)` grows with `w`.
proof fn lemma_share_of_reserve_monotone(w1: int, w2: int, reserve_in: int, reserve_out: int)
    requires
        0 <= w1 <= w2,
        reserve_in > 0,
        reserve_out > 0,
    ensures
        (w1 * reserve_out) / (reserve_in + w1) <= (w2 * reserve_out) / (reserve_in + w2),
{
    let d1 = reserve_in + w1;
    let d2 = reserve_in + w2;
    let n1 = w1 * reserve_out;
    let n2 = w2 * reserve_out;
    let q = n1 / d1;
    assert(n1 >= 0) by (nonlinear_arith)
        requires
            w1 >= 0,
            reserve_out > 0,
            n1 == w1 * reserve_out,
    ;
    assert(q * d1 <= n1 && q >= 0) by (nonlinear_arith)
        requires
            q == n1 / d1,
            d1 > 0,
            n1 >= 0,
    ;
    assert(q <= reserve_out) by (nonlinear_arith)
        requires
            q * d1 <= n1,
            n1 == w1 * reserve_out,
            d1 == reserve_in + w1,
            reserve_in > 0,
            reserve_out > 0,
            w1 >= 0,
            q >= 0,
    ;
    assert(n2 == n1 + (w2 - w1) * reserve_out) by (nonlinear_arith)
        requires
            n1 == w1 * reserve_out,
            n2 == w2 * reserve_out,
    ;
    assert(q * d2 <= n2) by (nonlinear_arith)
        requires
            q * d1 <= n1,
            q <= reserve_out,
            q >= 0,
            d2 == d1 + (w2 - w1),
            n2 == n1 + (w2 - w1) * reserve_out,
            w2 >= w1,
    ;
    assert(q <= n2 / d2) by (nonlinear_arith)
        requires
            q * d2 <= n2,
            d2 > 0,
    ;
}

/// The input left after the fee grows with the amount and shrinks as the
/// fee grows.
proof fn lemma_input_after_fee_monotone(a1: int, a2: int, f1: int, f2: int)
    requires
        0 < a1 <= a2,
        0 <= f2 <= f1 <= 10000,
    ensures
        0 <= input_after_fee(a1, f1) <= input_after_fee(a2, f2),
{
    let p1 = a1 * (10000 - f1);
    let p2 = a2 * (10000 - f2);
    assert(0 <= p1 <= p2) by (nonlinear_arith)
        requires
            0 < a1 <= a2,
            0 <= f2 <= f1 <= 10000,
            p1 == a1 * (10000 - f1),
            p2 == a2 * (10000 - f2),
    ;
    lemma_tdiv_nonneg(p1, 10000);
    lemma_tdiv_nonneg(p2, 10000);
    vstd::arithmetic::div_mod::lemma_div_is_ordered(p1, p2, 10000);
}

/// A swap pays out no less for a larger input, and no less for a lower fee:
/// the output grows with `amount_in` and shrinks as `fee_bps` grows, for
/// fees of at most 100%.
pub proof fn lemma_output_monotone(
    a1: int,
    a2: int,
    reserve_in: int,
    reserve_out: int,
    f1: int,
    f2: int,
)
    requires
        a1 <= a2,
        0 <= f2 <= f1 <= 10000,
    ensures
        output_amount(a1, reserve_in, reserve_out, f1) <= output_amount(a2, reserve_in, reserve_out, f2),
        output_amount(a1, reserve_in, reserve_out, f1) >= 0,
{
    if a1 > 0 && reserve_in > 0 && reserve_out > 0 {
        lemma_input_after_fee_monotone(a1, a2, f1, f2);
        let w1 = input_after_fee(a1, f1);
        let w2 = input_after_fee(a2, f2);
        lemma_share_of_reserve_monotone(w1, w2, reserve_in, reserve_out);
        assert(w1 * reserve_out >= 0 && w2 * reserve_out >= 0) by (nonlinear_arith)
            requires
                0 <= w1 <= w2,
                reserve_out > 0,
        ;
        lemma_tdiv_nonneg(w1 * reserve_out, reserve_in + w1);
        lemma_tdiv_nonneg(w2 * reserve_out, reserve_in + w2);
    } else if reserve_in > 0 && reserve_out > 0 && a2 > 0 {
        let w2 = input_after_fee(a2, f2);
        assert(a2 * (10000 - f2) >= 0) by (nonlinear_arith)
            requires
                a2 > 0,
                f2 <= 10000,
        ;
        lemma_tdiv_nonneg(a2 * (10000 - f2), 10000);
        assert(w2 * reserve_out >= 0) by (nonlinear_arith)
            requires
                w2 >= 0,
                reserve_out > 0,
        ;
        lemma_tdiv_nonneg(w2 * reserve_out, reserve_in + w2);
    }
}

/// Calculate output amount using constant product formula (x * y = k).
pub fn calculate_output(amount_in: i128, reserve_in: i128, reserve_out: i128, fee_bps: u32) -> (r: i128)
    requires
        output_computable(amount_in as int, reserve_in as int, reserve_out as int, fee_bps as int),
    ensures
        r == output_amount(amount_in as int, reserve_in as int, reserve_out as int, fee_bps as int),
{
    if amount_in <= 0 || reserve_in <= 0 || reserve_out <= 0 {
        return 0;
    }
    let amount_in_with_fee = div_i128(amount_in * (10000 - fee_bps as i128), 10000);
    let numerator = amount_in_with_fee * reserve_out;
    let denominator = reserve_in + amount_in_with_fee;
    div_i128(numerator, denominator)
}

/// With positive reserves and a fee of at most 100%, the formula is always
/// computable when `amount_in * 10000 * reserve_out` fits.
pub proof fn lemma_output_computable(amount_in: int, reserve_in: int, reserve_out: int, fee_bps: int)
    requires
        amount_in > 0,
        reserve_in > 0,
        reserve_out > 0,
        0 <= fee_bps <= 10000,
        amount_in * 10000 <= i128::MAX,
        amount_in * reserve_out <= i128::MAX,
        reserve_in + amount_in <= i128::MAX,
    ensures
        output_computable(amount_in, reserve_in, reserve_out, fee_bps),
{
    let p = amount_in * (10000 - fee_bps);
    assert(0 <= p <= amount_in * 10000) by (nonlinear_arith)
        requires
            amount_in > 0,
            0 <= fee_bps <= 10000,
            p == amount_in * (10000 - fee_bps),
    ;
    lemma_tdiv_nonneg(p, 10000);
    let w = input_after_fee(amount_in, fee_bps);
    assert(w <= amount_in) by (nonlinear_arith)
        requires
            w == p / 10000,
            0 <= p <= amount_in * 10000,
    ;
    assert(0 <= w * reserve_out <= amount_in * reserve_out) by (nonlinear_arith)
        requires
            0 <= w <= amount_in,
            reserve_out > 0,
    ;
}

/// The constant-product law: a swap into a pool with positive reserves and a
/// fee of at most 100% pays out less than the pool holds, and the product of
/// the reserves after the swap is at least the product before it.
pub proof fn lemma_swap_keeps_product(amount_in: int, reserve_in: int, reserve_out: int, fee_bps: int)
    requires
        amount_in > 0,
        reserve_in > 0,
        reserve_out > 0,
        0 <= fee_bps <= 10000,
        output_computable(amount_in, reserve_in, reserve_out, fee_bps),
    ensures
        0 <= output_amount(amount_in, reserve_in, reserve_out, fee_bps) < reserve_out,
        (reserve_in + amount_in) * (reserve_out - output_amount(amount_in, reserve_in, reserve_out, fee_bps))
            >= reserve_in * reserve_out,
{
    let p = amount_in * (10000 - fee_bps);
    assert(0 <= p <= amount_in * 10000) by (nonlinear_arith)
        requires
            amount_in > 0,
            0 <= fee_bps <= 10000,
            p == amount_in * (10000 - fee_bps),
    ;
    lemma_tdiv_nonneg(p, 10000);
    let w = input_after_fee(amount_in, fee_bps);
    assert(w <= amount_in) by (nonlinear_arith)
        requires
            w == p / 10000,
            0 <= p <= amount_in * 10000,
    ;
    let n = w * reserve_out;
    let d = reserve_in + w;
    assert(n >= 0) by (nonlinear_arith)
        requires
            w >= 0,
            reserve_out > 0,
            n == w * reserve_out,
    ;
    lemma_tdiv_nonneg(n, d);
    let out = n / d;
    assert(out * d <= n) by (nonlinear_arith)
        requires
            out == n / d,
            d > 0,
            n >= 0,
    ;
    assert(out < reserve_out) by (nonlinear_arith)
        requires
            out * d <= n,
            n == w * reserve_out,
            d == reserve_in + w,
            reserve_in > 0,
            reserve_out > 0,
            w >= 0,
            out >= 0,
    ;
    assert(d * (reserve_out - out) >= reserve_in * reserve_out) by (nonlinear_arith)
        requires
            out * d <= n,
            n == w * reserve_out,
            d == reserve_in + w,
    ;
    assert((reserve_in + amount_in) * (reserve_out - out) >= d * (reserve_out - out)) by (nonlinear_arith)
        requires
            d == reserve_in + w,
            w <= amount_in,
            reserve_out - out > 0,
    ;
}

/// Whether `token_in` is one of the pool's tokens, and the reserves on the
/// side it comes in and on the side that goes out.
pub open spec fn oriented(pool: LiquidityPool, token_in: Address) -> Option<(i128, i128)> {
    if token_in == pool.token_a {
        Some((pool.reserve_a, pool.reserve_b))
    } else if token_in == pool.token_b {
        Some((pool.reserve_b, pool.reserve_a))
    } else {
        None
    }
}

pub fn orient(pool: &LiquidityPool, token_in: Address) -> (r: Option<(i128, i128)>)
    ensures
        r == oriented(*pool, token_in),
{
    if token_in == pool.token_a {
        Some((pool.reserve_a, pool.reserve_b))
    } else if token_in == pool.token_b {
        Some((pool.reserve_b, pool.reserve_a))
    } else {
        None
    }
}

/// The swap can be carried out on `i128` without a fault.
pub open spec fn swap_computable(pool: LiquidityPool, token_in: Address, amount_in: int) -> bool {
    match oriented(pool, token_in) {
        Some((ri, ro)) => {
            let out = output_amount(amount_in, ri as int, ro as int, pool.fee_bps as int);
            &&& output_computable(amount_in, ri as int, ro as int, pool.fee_bps as int)
            &&& fits(amount_in * pool.fee_bps)
            &&& fits(ri + amount_in)
            &&& fits(ro - out)
        },
        None => true,
    }
}

/// The pool after a swap of `amount_in` of `token_in` paying `out`.
pub open spec fn pool_after_swap(pool: LiquidityPool, token_in: Address, amount_in: int, out: int) -> LiquidityPool {
    if token_in == pool.token_a {
        LiquidityPool {
            reserve_a: (pool.reserve_a + amount_in) as i128,
            reserve_b: (pool.reserve_b - out) as i128,
            ..pool
        }
    } else {
        LiquidityPool {
            reserve_b: (pool.reserve_b + amount_in) as i128,
            reserve_a: (pool.reserve_a - out) as i128,
            ..pool
        }
    }
}

/// The other token of the pool.
pub open spec fn token_out_of(pool: LiquidityPool, token_in: Address) -> Address {
    if token_in == pool.token_a {
        pool.token_b
    } else {
        pool.token_a
    }
}

/// A swap moves the reserves by exactly what changed hands: the reserve of the
/// incoming token grows by `amount_in`, that of the other token falls by the
/// payout `out`, and the pool's tokens, fee and shares stay as they were.
pub proof fn lemma_swap_moves_reserves(pool: LiquidityPool, token_in: Address, amount_in: int, out: int)
    requires
        match oriented(pool, token_in) {
            Some((ri, ro)) => fits(ri + amount_in) && fits(ro - out),
            None => false,
        },
    ensures
        ({
            let (ri, ro) = oriented(pool, token_in)->0;
            let new_pool = pool_after_swap(pool, token_in, amount_in, out);
            &&& oriented(new_pool, token_in) == Some(((ri + amount_in) as i128, (ro - out) as i128))
            &&& new_pool.token_a == pool.token_a
            &&& new_pool.token_b == pool.token_b
            &&& new_pool.fee_bps == pool.fee_bps
            &&& new_pool.total_shares == pool.total_shares
        }),
{
}

/// The constant-product law on the pool itself: after a swap into a pool with
/// positive reserves and a fee of at most 100%, the product of the pool's
/// reserves is at least what it was, and the outgoing reserve stays positive.
pub proof fn lemma_swap_pool_keeps_product(pool: LiquidityPool, token_in: Address, amount_in: int)
    requires
        amount_in > 0,
        pool.reserve_a > 0,
        pool.reserve_b > 0,
        pool.fee_bps <= 10000,
        oriented(pool, token_in) is Some,
        swap_computable(pool, token_in, amount_in),
    ensures
        ({
            let (ri, ro) = oriented(pool, token_in)->0;
            let out = output_amount(amount_in, ri as int, ro as int, pool.fee_bps as int);
            let new_pool = pool_after_swap(pool, token_in, amount_in, out);
            &&& new_pool.reserve_a > 0
            &&& new_pool.reserve_b > 0
            &&& new_pool.reserve_a * new_pool.reserve_b >= pool.reserve_a * pool.reserve_b
        }),
{
    let (ri, ro) = oriented(pool, token_in)->0;
    lemma_swap_keeps_product(amount_in, ri as int, ro as int, pool.fee_bps as int);
    let out = output_amount(amount_in, ri as int, ro as int, pool.fee_bps as int);
    lemma_swap_moves_reserves(pool, token_in, amount_in, out);
    let new_pool = pool_after_swap(pool, token_in, amount_in, out);
    assert(new_pool.reserve_a * new_pool.reserve_b == new_pool.reserve_b * new_pool.reserve_a) by (nonlinear_arith);
    assert(pool.reserve_a * pool.reserve_b == pool.reserve_b * pool.reserve_a) by (nonlinear_arith);
}

impl Amm {
    /// Perform a token swap: `sender` pays `amount_in` of `token_in` and
    /// receives the constant-product output of the pool's other token.
    pub fn swap(
        &mut self,
        pool_id: u64,
        sender: Address,
        token_in: Address,
        amount_in: i128,
        min_amount_out: i128,
    ) -> (r: Result<(SwapResult, Vec<Transfer>), AmmError>)
        requires
            old(self).wf(),
            old(self).pools().contains_key(pool_id) ==> swap_computable(
                old(self).pools()[pool_id],
                token_in,
                amount_in as int,
            ),
        ensures
            final(self).wf(),
            amount_in <= 0 ==> r == Err::<(SwapResult, Vec<Transfer>), AmmError>(AmmError::InvalidAmount),
            amount_in > 0 && !old(self).pools().contains_key(pool_id) ==> r == Err::<
                (SwapResult, Vec<Transfer>),
                AmmError,
            >(AmmError::PoolNotFound),
            amount_in > 0 && old(self).pools().contains_key(pool_id) && oriented(
                old(self).pools()[pool_id],
                token_in,
            ) is None ==> r == Err::<(SwapResult, Vec<Transfer>), AmmError>(AmmError::TokenNotInPool),
            r is Err ==> *final(self) == *old(self),
            ({
                let pool = old(self).pools()[pool_id];
                let (ri, ro) = oriented(pool, token_in)->0;
                let out = output_amount(amount_in as int, ri as int, ro as int, pool.fee_bps as int);
                amount_in > 0 && old(self).pools().contains_key(pool_id) && oriented(pool, token_in) is Some
                    ==> {
                    &&& out < min_amount_out ==> r == Err::<(SwapResult, Vec<Transfer>), AmmError>(
                        AmmError::SlippageTooHigh,
                    )
                    &&& out >= min_amount_out ==> r is Ok
                    &&& r matches Ok((res, transfers)) ==> {
                        let new_pool = pool_after_swap(pool, token_in, amount_in as int, out);
                        &&& res.amount_out == out
                        &&& oriented(final(self).pools()[pool_id], token_in) == Some(
                            ((ri + amount_in) as i128, (ro - out) as i128),
                        )
                        &&& res.fee_amount == tdiv(amount_in * pool.fee_bps, 10000)
                        &&& res.new_reserve_a == new_pool.reserve_a
                        &&& res.new_reserve_b == new_pool.reserve_b
                        &&& final(self).pools() == old(self).pools().insert(pool_id, new_pool)
                        &&& final(self).pair_index() == old(self).pair_index()
                        &&& final(self).share_map() == old(self).share_map()
                        &&& final(self).counter() == old(self).counter()
                        &&& transfers@ == seq![
                            Transfer::Deposit { token: token_in, from: sender, amount: amount_in },
                            Transfer::Payout { token: token_out_of(pool, token_in), to: sender, amount: out as i128 },
                        ]
                    }
                }
            }),
    {
        if amount_in <= 0 {
            return Err(AmmError::InvalidAmount);
        }
        let pool = match self.pools.get(&pool_id) {
            Some(p) => *p,
            None => {
                return Err(AmmError::PoolNotFound);
            },
        };
        let (reserve_in, reserve_out) = match orient(&pool, token_in) {
            Some(rs) => rs,
            None => {
                return Err(AmmError::TokenNotInPool);
            },
        };
        let token_out = if token_in == pool.token_a {
            pool.token_b
        } else {
            pool.token_a
        };
        let amount_out = calculate_output(amount_in, reserve_in, reserve_out, pool.fee_bps);
        if amount_out < min_amount_out {
            return Err(AmmError::SlippageTooHigh);
        }
        let fee_amount = div_i128(amount_in * pool.fee_bps as i128, 10000);
        let mut new_pool = pool;
        if token_in == pool.token_a {
            new_pool.reserve_a = pool.reserve_a + amount_in;
            new_pool.reserve_b = pool.reserve_b - amount_out;
        } else {
            new_pool.reserve_b = pool.reserve_b + amount_in;
            new_pool.reserve_a = pool.reserve_a - amount_out;
        }
        self.pools.insert(pool_id, new_pool);
        let mut transfers: Vec<Transfer> = Vec::new();
        transfers.push(Transfer::Deposit { token: token_in, from: sender, amount: amount_in });
        transfers.push(Transfer::Payout { token: token_out, to: sender, amount: amount_out });
        Ok(
            (
                SwapResult {
                    amount_out,
                    fee_amount,
                    new_reserve_a: new_pool.reserve_a,
                    new_reserve_b: new_pool.reserve_b,
                },
                transfers,
            ),
        )
    }

    /// Get expected output amount for a swap (view function).
    pub fn get_amount_out(&self, pool_id: u64, token_in: Address, amount_in: i128) -> (r: Result<
        i128,
        AmmError,
    >)
        requires
            self.wf(),
            self.pools().contains_key(pool_id) ==> match oriented(self.pools()[pool_id], token_in) {
                Some((ri, ro)) => output_computable(
                    amount_in as int,
                    ri as int,
                    ro as int,
                    self.pools()[pool_id].fee_bps as int,
                ),
                None => true,
            },
        ensures
            !self.pools().contains_key(pool_id) ==> r == Err::<i128, AmmError>(AmmError::PoolNotFound),
            self.pools().contains_key(pool_id) ==> match oriented(self.pools()[pool_id], token_in) {
                Some((ri, ro)) => r == Ok::<i128, AmmError>(
                    output_amount(amount_in as int, ri as int, ro as int, self.pools()[pool_id].fee_bps as int)
                        as i128,
                ),
                None => r == Err::<i128, AmmError>(AmmError::TokenNotInPool),
            },
    {
        let pool = match self.pools.get(&pool_id) {
            Some(p) => *p,
            None => {
                return Err(AmmError::PoolNotFound);
            },
        };
        match orient(&pool, token_in) {
            Some((reserve_in, reserve_out)) => Ok(
                calculate_output(amount_in, reserve_in, reserve_out, pool.fee_bps),
            ),
            None => Err(AmmError::TokenNotInPool),
        }
    }
}

/// The price of the incoming token in basis points of the outgoing one before
/// the swap, the price after it, and the relative change between the two in
/// basis points.
pub open spec fn price_impact(amount_in: int, reserve_in: int, reserve_out: int, fee_bps: int) -> int {
    let current = tdiv(reserve_out * 10000, reserve_in);
    let out = output_amount(amount_in, reserve_in, reserve_out, fee_bps);
    let new_price = tdiv((reserve_out - out) * 10000, reserve_in + amount_in);
    if current > new_price {
        tdiv((current - new_price) * 10000, current)
    } else {
        tdiv((new_price - current) * 10000, current)
    }
}

/// The price impact can be computed on `i128` without a fault.
pub open spec fn price_impact_computable(amount_in: int, reserve_in: int, reserve_out: int, fee_bps: int) -> bool {
    let current = tdiv(reserve_out * 10000, reserve_in);
    let out = output_amount(amount_in, reserve_in, reserve_out, fee_bps);
    let new_price = tdiv((reserve_out - out) * 10000, reserve_in + amount_in);
    &&& fits(reserve_out * 10000)
    &&& div_ok(reserve_out * 10000, reserve_in)
    &&& output_computable(amount_in, reserve_in, reserve_out, fee_bps)
    &&& fits(reserve_in + amount_in)
    &&& fits(reserve_out - out)
    &&& fits((reserve_out - out) * 10000)
    &&& div_ok((reserve_out - out) * 10000, reserve_in + amount_in)
    &&& fits(current - new_price)
    &&& fits(new_price - current)
    &&& fits((current - new_price) * 10000)
    &&& fits((new_price - current) * 10000)
    &&& div_ok((current - new_price) * 10000, current)
    &&& div_ok((new_price - current) * 10000, current)
}

impl Amm {
    /// Get price impact for a swap, in basis points.
    pub fn get_price_impact(&self, pool_id: u64, token_in: Address, amount_in: i128) -> (r: Result<
        i128,
        AmmError,
    >)
        requires
            self.wf(),
            self.pools().contains_key(pool_id) ==> match oriented(self.pools()[pool_id], token_in) {
                Some((ri, ro)) => price_impact_computable(
                    amount_in as int,
                    ri as int,
                    ro as int,
                    self.pools()[pool_id].fee_bps as int,
                ),
                None => true,
            },
        ensures
            !self.pools().contains_key(pool_id) ==> r == Err::<i128, AmmError>(AmmError::PoolNotFound),
            self.pools().contains_key(pool_id) ==> match oriented(self.pools()[pool_id], token_in) {
                Some((ri, ro)) => r == Ok::<i128, AmmError>(
                    price_impact(amount_in as int, ri as int, ro as int, self.pools()[pool_id].fee_bps as int)
                        as i128,
                ),
                None => r == Err::<i128, AmmError>(AmmError::TokenNotInPool),
            },
    {
        let pool = match self.pools.get(&pool_id) {
            Some(p) => *p,
            None => {
                return Err(AmmError::PoolNotFound);
            },
        };
        let (reserve_in, reserve_out) = match orient(&pool, token_in) {
            Some(rs) => rs,
            None => {
                return Err(AmmError::TokenNotInPool);
            },
        };
        let current_price = div_i128(reserve_out * 10000, reserve_in);
        let amount_out = calculate_output(amount_in, reserve_in, reserve_out, pool.fee_bps);
        let new_reserve_in = reserve_in + amount_in;
        let new_reserve_out = reserve_out - amount_out;
        let new_price = div_i128(new_reserve_out * 10000, new_reserve_in);
        if current_price > new_price {
            Ok(div_i128((current_price - new_price) * 10000, current_price))
        } else {
            Ok(div_i128((new_price - current_price) * 10000, current_price))
        }
    }
}

} // verus!
