//! Performance tracking and calculation for strategies

use vstd::prelude::*;

use super::StrategyBook;
use crate::ledger::{fits, tdiv};

verus! {

/// Strategy performance metrics
#[derive(Clone, Copy, PartialEq, Eq, Structural, Debug)]
pub struct PerformanceMetrics {
    /// Strategy identifier
    pub strategy_id: u64,
    /// Total return in smallest units
    pub total_return: i128,
    /// Return percentage in basis points (1 bps = 0.01%), taken on the
    /// capital still invested (see [`capital_base`])
    pub return_percentage_bps: i32,
    /// Unrealized gains
    pub unrealized_gains: i128,
    /// Realized gains
    pub realized_gains: i128,
    /// Total fees paid
    pub total_fees: i128,
    /// Performance fees paid
    pub performance_fees: i128,
    /// Management fees paid
    pub management_fees: i128,
    /// Net return after fees
    pub net_return: i128,
    /// Number of days tracked
    pub days_tracked: u64,
    /// Annualized return in basis points
    pub annualized_return_bps: i32,
    /// Strategy creation timestamp
    pub created_at: u64,
    /// Last update timestamp
    pub updated_at: u64,
}

#[derive(Clone, Copy, PartialEq, Eq, Structural, Debug)]
pub enum PerformanceError {
    /// Strategy not found
    StrategyNotFound,
    /// Performance data not found
    PerformanceDataNotFound,
    /// Invalid calculation
    InvalidCalculation,
    /// No performance history available
    NoPerformanceHistory,
}

/// Strategy comparison data
#[derive(Clone, Copy, PartialEq, Eq, Structural, Debug)]
pub struct StrategyComparison {
    pub strategy_id: u64,
    pub return_percentage_bps: i32,
    pub annualized_return_bps: i32,
    pub total_fees: i128,
    pub net_return: i128,
}

/// The capital a return is measured against: the initial investment less
/// the rewards already received, while those rewards have repaid part but
/// not all of it; otherwise the initial investment itself.
pub open spec fn capital_base(initial_investment: i128, accumulated_rewards: i128) -> i128 {
    if 0 < accumulated_rewards < initial_investment {
        (initial_investment - accumulated_rewards) as i128
    } else {
        initial_investment
    }
}

/// The return in basis points of the capital base, computed on 64-bit
/// integers from the return and base truncated to 64 bits; `None` where the
/// scaled return leaves `i64` or the truncated base is zero.
pub open spec fn return_bps(gross_return: i128, base: i128) -> Option<i32> {
    match (gross_return as i64).checked_mul(10000) {
        None => None,
        Some(scaled) => match scaled.checked_div(base as i64) {
            None => None,
            Some(q) => Some(q as i32),
        },
    }
}

/// The performance fee: `performance_fee_bps` of the positive part of the
/// gross return; `None` where the product leaves `u128`.
pub open spec fn performance_fee(gross_return: i128, performance_fee_bps: u32) -> Option<i128> {
    let positive = if gross_return > 0 {
        gross_return as int
    } else {
        0
    };
    if positive * performance_fee_bps > u128::MAX {
        None
    } else {
        Some((((positive * performance_fee_bps) / 10000) as u128) as i128)
    }
}

/// The management fee: `management_fee_bps` a year of the initial investment
/// for `days` days, zero for no whole day; `None` where a product leaves `u128`.
pub open spec fn management_fee(initial_investment: i128, management_fee_bps: u32, days: u64) -> Option<i128> {
    if days == 0 {
        Some(0)
    } else {
        let p = initial_investment as int * management_fee_bps;
        if p > u128::MAX || p * days > u128::MAX {
            None
        } else {
            Some((((p * days) / 3650000int) as u128) as i128)
        }
    }
}

/// The performance figures of a strategy at `now`: gross return, return in
/// basis points, fees, net return and annualized return; `InvalidCalculation`
/// for a negative current value, an investment that is not positive, or any
/// step that leaves its integer type.
pub open spec fn performance_figures(
    now: u64,
    strategy_id: u64,
    initial_investment: i128,
    current_value: i128,
    accumulated_rewards: i128,
    performance_fee_bps: u32,
    management_fee_bps: u32,
    created_at: u64,
) -> Result<PerformanceMetrics, PerformanceError> {
    let gross = current_value + accumulated_rewards - initial_investment;
    let days = ((now - created_at) / 86400) as u64;
    if current_value < 0 || initial_investment <= 0 || !fits(current_value + accumulated_rewards) || !fits(
        gross,
    ) {
        Err(PerformanceError::InvalidCalculation)
    } else {
        match (
            return_bps(gross as i128, capital_base(initial_investment, accumulated_rewards)),
            performance_fee(gross as i128, performance_fee_bps),
            management_fee(initial_investment, management_fee_bps, days),
        ) {
            (Some(ret), Some(pf), Some(mf)) => {
                let total_fees = pf + mf;
                let net = gross - total_fees;
                if !fits(total_fees) || !fits(net) {
                    Err(PerformanceError::InvalidCalculation)
                } else {
                    Ok(
                        PerformanceMetrics {
                            strategy_id,
                            total_return: gross as i128,
                            return_percentage_bps: ret,
                            unrealized_gains: (current_value - initial_investment) as i128,
                            realized_gains: accumulated_rewards,
                            total_fees: total_fees as i128,
                            performance_fees: pf,
                            management_fees: mf,
                            net_return: net as i128,
                            days_tracked: days,
                            annualized_return_bps: if days > 0 {
                                tdiv(ret as int * 365, days as int) as i32
                            } else {
                                0
                            },
                            created_at,
                            updated_at: now,
                        },
                    )
                }
            },
            _ => Err(PerformanceError::InvalidCalculation),
        }
    }
}

/// Calculate performance metrics for a strategy at `now`.
pub fn calculate_performance(
    now: u64,
    strategy_id: u64,
    initial_investment: i128,
    current_value: i128,
    accumulated_rewards: i128,
    performance_fee_bps: u32,
    management_fee_bps: u32,
    created_at: u64,
) -> (r: Result<PerformanceMetrics, PerformanceError>)
    requires
        now >= created_at,
    ensures
        r == performance_figures(
            now,
            strategy_id,
            initial_investment,
            current_value,
            accumulated_rewards,
            performance_fee_bps,
            management_fee_bps,
            created_at,
        ),
        r matches Ok(m) ==> {
            &&& m.total_return == current_value + accumulated_rewards - initial_investment
            &&& m.unrealized_gains == current_value - initial_investment
            &&& m.realized_gains == accumulated_rewards
        },
{
    if current_value < 0 || initial_investment <= 0 {
        return Err(PerformanceError::InvalidCalculation);
    }
    let gross_return = match current_value.checked_add(accumulated_rewards) {
        Some(v) => match v.checked_sub(initial_investment) {
            Some(g) => g,
            None => {
                return Err(PerformanceError::InvalidCalculation);
            },
        },
        None => {
            return Err(PerformanceError::InvalidCalculation);
        },
    };
    let time_elapsed = now - created_at;
    let days_tracked = time_elapsed / 86400;
    let base = if 0 < accumulated_rewards && accumulated_rewards < initial_investment {
        initial_investment - accumulated_rewards
    } else {
        initial_investment
    };
    let return_percentage_bps = match (gross_return as i64).checked_mul(10000) {
        Some(scaled) => match scaled.checked_div(base as i64) {
            Some(q) => q as i32,
            None => {
                return Err(PerformanceError::InvalidCalculation);
            },
        },
        None => {
            return Err(PerformanceError::InvalidCalculation);
        },
    };
    let performance_over_zero = if gross_return > 0 {
        gross_return
    } else {
        0
    };
    let performance_fees = match (performance_over_zero as u128).checked_mul(performance_fee_bps as u128) {
        Some(p) => (p / 10000) as i128,
        None => {
            return Err(PerformanceError::InvalidCalculation);
        },
    };
    let management_fee_amount = if days_tracked > 0 {
        match (initial_investment as u128).checked_mul(management_fee_bps as u128) {
            Some(p) => match p.checked_mul(days_tracked as u128) {
                Some(q) => (q / (365 * 10000)) as i128,
                None => {
                    return Err(PerformanceError::InvalidCalculation);
                },
            },
            None => {
                return Err(PerformanceError::InvalidCalculation);
            },
        }
    } else {
        0
    };
    let total_fees = match performance_fees.checked_add(management_fee_amount) {
        Some(t) => t,
        None => {
            return Err(PerformanceError::InvalidCalculation);
        },
    };
    let net_return = match gross_return.checked_sub(total_fees) {
        Some(n) => n,
        None => {
            return Err(PerformanceError::InvalidCalculation);
        },
    };
    let annualized_return_bps = if days_tracked > 0 {
        let annualized = (return_percentage_bps as i64) * 365 / (days_tracked as i64);
        annualized as i32
    } else {
        0
    };
    Ok(
        PerformanceMetrics {
            strategy_id,
            total_return: gross_return,
            return_percentage_bps,
            unrealized_gains: current_value - initial_investment,
            realized_gains: accumulated_rewards,
            total_fees,
            performance_fees,
            management_fees: management_fee_amount,
            net_return,
            days_tracked,
            annualized_return_bps,
            created_at,
            updated_at: now,
        },
    )
}

/// A daily excess return: the return spread over `num_days` (both truncated
/// to 32 bits) less the daily share of the yearly risk-free rate; zero for
/// no days; `None` where the truncated day count is zero or the division
/// overflows.
pub open spec fn risk_adjusted_return(total_return: i128, risk_free_rate_bps: u32, num_days: u64) -> Option<int> {
    if num_days == 0 {
        Some(0)
    } else {
        let daily_risk_free = (risk_free_rate_bps as int / 365) as i32;
        match (total_return as i32).checked_div(num_days as i32) {
            None => None,
            Some(daily_return) => Some(daily_return - daily_risk_free),
        }
    }
}

/// Calculate Sharpe ratio (simplified - no volatility calculation)
pub fn calculate_risk_adjusted_return(total_return: i128, risk_free_rate_bps: u32, num_days: u64) -> (r: Result<
    i32,
    PerformanceError,
>)
    requires
        risk_adjusted_return(total_return, risk_free_rate_bps, num_days) matches Some(x) ==> i32::MIN <= x
            <= i32::MAX,
    ensures
        match risk_adjusted_return(total_return, risk_free_rate_bps, num_days) {
            Some(x) => r == Ok::<i32, PerformanceError>(x as i32),
            None => r == Err::<i32, PerformanceError>(PerformanceError::InvalidCalculation),
        },
{
    if num_days == 0 {
        return Ok(0);
    }
    let daily_risk_free_rate = ((risk_free_rate_bps as i64) / 365) as i32;
    let daily_return = match (total_return as i32).checked_div(num_days as i32) {
        Some(d) => d,
        None => {
            return Err(PerformanceError::InvalidCalculation);
        },
    };
    Ok(daily_return - daily_risk_free_rate)
}

/// The comparison rows for the strategies among `ids` that have stored
/// performance figures, in the order of `ids`.
pub open spec fn comparisons(ids: Seq<u64>, figures: Map<u64, PerformanceMetrics>) -> Seq<StrategyComparison>
    decreases ids.len(),
{
    if ids.len() == 0 {
        Seq::empty()
    } else {
        let rest = comparisons(ids.drop_last(), figures);
        let id = ids.last();
        if figures.contains_key(id) {
            let m = figures[id];
            rest.push(
                StrategyComparison {
                    strategy_id: id,
                    return_percentage_bps: m.return_percentage_bps,
                    annualized_return_bps: m.annualized_return_bps,
                    total_fees: m.total_fees,
                    net_return: m.net_return,
                },
            )
        } else {
            rest
        }
    }
}

impl StrategyBook {
    /// Store performance metrics under their strategy.
    pub fn store_performance_metrics(&mut self, metrics: PerformanceMetrics)
        requires
            old(self).wf(),
        ensures
            final(self).wf(),
            final(self).performance() == old(self).performance().insert(metrics.strategy_id, metrics),
            final(self).strategies() == old(self).strategies(),
            final(self).next_id() == old(self).next_id(),
            final(self).allocations() == old(self).allocations(),
            final(self).history() == old(self).history(),
            final(self).entry_counters() == old(self).entry_counters(),
    {
        self.performance.insert(metrics.strategy_id, metrics);
    }

    /// Get performance metrics
    pub fn get_performance_metrics(&self, strategy_id: u64) -> (r: Result<PerformanceMetrics, PerformanceError>)
        requires
            self.wf(),
        ensures
            r == (if self.performance().contains_key(strategy_id) {
                Ok::<PerformanceMetrics, PerformanceError>(self.performance()[strategy_id])
            } else {
                Err(PerformanceError::PerformanceDataNotFound)
            }),
    {
        match self.performance.get(&strategy_id) {
            Some(m) => Ok(*m),
            None => Err(PerformanceError::PerformanceDataNotFound),
        }
    }

    /// Compare strategies by performance
    pub fn compare_strategies(&self, strategy_ids: &Vec<u64>) -> (r: Result<Vec<StrategyComparison>, PerformanceError>)
        requires
            self.wf(),
        ensures
            r matches Ok(v) && v@ == comparisons(strategy_ids@, self.performance()),
    {
        let mut result: Vec<StrategyComparison> = Vec::new();
        let mut i: usize = 0;
        while i < strategy_ids.len()
            invariant
                self.wf(),
                0 <= i <= strategy_ids@.len(),
                result@ == comparisons(strategy_ids@.take(i as int), self.performance()),
            decreases strategy_ids@.len() - i,
        {
            let strategy_id = strategy_ids[i];
            proof {
                assert(strategy_ids@.take(i + 1).drop_last() =~= strategy_ids@.take(i as int));
            }
            if let Ok(metrics) = self.get_performance_metrics(strategy_id) {
                result.push(
                    StrategyComparison {
                        strategy_id,
                        return_percentage_bps: metrics.return_percentage_bps,
                        annualized_return_bps: metrics.annualized_return_bps,
                        total_fees: metrics.total_fees,
                        net_return: metrics.net_return,
                    },
                );
            }
            i = i + 1;
        }
        proof {
            assert(strategy_ids@.take(i as int) =~= strategy_ids@);
        }
        Ok(result)
    }
}

/// The performance fee is taken only on gains: nothing when the gross
/// return is not positive, and, at a rate of at most 100%, never more than
/// the gain.
pub proof fn lemma_fee_only_on_gains(
    now: u64,
    strategy_id: u64,
    initial_investment: i128,
    current_value: i128,
    accumulated_rewards: i128,
    performance_fee_bps: u32,
    management_fee_bps: u32,
    created_at: u64,
)
    requires
        performance_figures(
            now,
            strategy_id,
            initial_investment,
            current_value,
            accumulated_rewards,
            performance_fee_bps,
            management_fee_bps,
            created_at,
        ) is Ok,
    ensures
        ({
            let m = performance_figures(
                now,
                strategy_id,
                initial_investment,
                current_value,
                accumulated_rewards,
                performance_fee_bps,
                management_fee_bps,
                created_at,
            )->Ok_0;
            &&& m.total_return <= 0 ==> m.performance_fees == 0
            &&& m.total_return > 0 && performance_fee_bps <= 10000 ==> 0 <= m.performance_fees
                <= m.total_return
        }),
{
    let gross = current_value + accumulated_rewards - initial_investment;
    if gross > 0 && performance_fee_bps <= 10000 {
        let x = (gross * performance_fee_bps) / 10000;
        assert(0 <= x <= gross) by (nonlinear_arith)
            requires
                x == (gross * performance_fee_bps) / 10000,
                gross > 0,
                0 <= performance_fee_bps <= 10000,
        ;
    }
}

/// The gains split into what is still held and what was received: the
/// unrealized gain is the current value less the investment, the realized
/// gain is the rewards received, and the two add up to the total return.
/// The fees are the performance and management fees together, and the net
/// return is the total return less the fees.
pub proof fn lemma_gains_split(
    now: u64,
    strategy_id: u64,
    initial_investment: i128,
    current_value: i128,
    accumulated_rewards: i128,
    performance_fee_bps: u32,
    management_fee_bps: u32,
    created_at: u64,
)
    requires
        performance_figures(
            now,
            strategy_id,
            initial_investment,
            current_value,
            accumulated_rewards,
            performance_fee_bps,
            management_fee_bps,
            created_at,
        ) is Ok,
    ensures
        ({
            let m = performance_figures(
                now,
                strategy_id,
                initial_investment,
                current_value,
                accumulated_rewards,
                performance_fee_bps,
                management_fee_bps,
                created_at,
            )->Ok_0;
            &&& m.strategy_id == strategy_id
            &&& m.total_return == current_value + accumulated_rewards - initial_investment
            &&& m.unrealized_gains == current_value - initial_investment
            &&& m.realized_gains == accumulated_rewards
            &&& m.unrealized_gains + m.realized_gains == m.total_return
            &&& m.total_fees == m.performance_fees + m.management_fees
            &&& m.net_return == m.total_return - m.total_fees
        }),
{
}

} // verus!
