//! Rebalancing logic for automated strategy adjustments

use vstd::prelude::*;

use super::{AllocationTarget, StrategyBook, StrategyConfig};
use crate::ledger::fits;

verus! {

#[derive(Clone, Copy, PartialEq, Eq, Structural, Debug)]
pub enum RebalancingError {
    /// Rebalancing not needed (drift within threshold)
    RebalancingNotNeeded,
    /// Invalid target allocation
    InvalidTargetAllocation,
    /// Rebalancing too frequent
    TooFrequentRebalancing,
    /// Strategy not found
    StrategyNotFound,
    /// Rebalancing calculation failed
    CalculationFailed,
}

/// Metrics for strategy rebalancing
#[derive(Clone, Copy, PartialEq, Eq, Structural, Debug)]
pub struct RebalancingMetrics {
    /// Last timestamp when rebalancing was performed
    pub last_rebalance: u64,
    /// Next scheduled rebalance timestamp
    pub next_rebalance: u64,
    /// Seconds until next rebalance
    pub time_until_next_rebalance: u64,
    /// Whether rebalancing should occur now
    pub should_rebalance: bool,
    /// Maximum drift from target allocation in basis points
    pub max_drift_bps: u32,
    /// Rebalance threshold in basis points
    pub threshold_bps: u32,
}

pub open spec fn abs(x: int) -> int {
    if x < 0 {
        -x
    } else {
        x
    }
}

/// The amount an allocation of `bps` basis points aims at: `total_aum`, read
/// as an unsigned 128-bit number, times `bps` over 10000; `None` where the
/// product leaves `u128`.
pub open spec fn target_amount(total_aum: i128, bps: u32) -> Option<int> {
    let p = (total_aum as u128) as int * bps as int;
    if p > u128::MAX {
        None
    } else {
        Some(p / 10000)
    }
}

/// How far `deviation` is from `current`, in basis points of `current`
/// truncated to 32 bits; 10001 where `current` is zero; `None` where the
/// scaled deviation leaves `u128`.
pub open spec fn drift_bps(deviation: int, current: int) -> Option<u32> {
    if current != 0 {
        let m = abs(deviation) * 10000;
        if m > u128::MAX {
            None
        } else {
            Some((m / abs(current)) as u32)
        }
    } else {
        Some(10001)
    }
}

/// One step of a drift computation faults: the deviation or the current
/// amount cannot be negated on `i128`, or the deviation leaves `i128`.
pub open spec fn drift_step_faults(target: int, current: i128) -> bool {
    !fits(target - current) || target - current == i128::MIN || current == i128::MIN
}

/// The adjustments a rebalance asks for, pairing allocations with current
/// amounts in order: zero where the drift stays within `threshold`, the
/// deviation from the target otherwise. `None` where a step faults;
/// `Some(Err(CalculationFailed))` where a step overflows first.
pub open spec fn rebalance_run(
    allocations: Seq<AllocationTarget>,
    currents: Seq<i128>,
    total_aum: i128,
    threshold: u32,
) -> Option<Result<Seq<i128>, RebalancingError>>
    decreases allocations.len(),
{
    if allocations.len() == 0 || currents.len() == 0 {
        Some(Ok(Seq::empty()))
    } else {
        match rebalance_run(allocations.drop_last(), currents.drop_last(), total_aum, threshold) {
            None => None,
            Some(Err(e)) => Some(Err(e)),
            Some(Ok(adjustments)) => {
                let current = currents.last();
                match target_amount(total_aum, allocations.last().allocation_bps) {
                    None => Some(Err(RebalancingError::CalculationFailed)),
                    Some(target) => if drift_step_faults(target, current) {
                        None
                    } else {
                        let deviation = target - current;
                        match drift_bps(deviation, current as int) {
                            None => Some(Err(RebalancingError::CalculationFailed)),
                            Some(d) => if d <= threshold {
                                Some(Ok(adjustments.push(0)))
                            } else {
                                Some(Ok(adjustments.push(deviation as i128)))
                            },
                        }
                    },
                }
            },
        }
    }
}

/// The largest drift over the allocations paired with current amounts in
/// order, zero for none; `None` where a step faults;
/// `Some(Err(CalculationFailed))` where a step overflows first.
pub open spec fn max_drift_run(allocations: Seq<AllocationTarget>, currents: Seq<i128>, total_aum: i128) -> Option<
    Result<u32, RebalancingError>,
>
    decreases allocations.len(),
{
    if allocations.len() == 0 || currents.len() == 0 {
        Some(Ok(0))
    } else {
        match max_drift_run(allocations.drop_last(), currents.drop_last(), total_aum) {
            None => None,
            Some(Err(e)) => Some(Err(e)),
            Some(Ok(m)) => {
                let current = currents.last();
                match target_amount(total_aum, allocations.last().allocation_bps) {
                    None => Some(Err(RebalancingError::CalculationFailed)),
                    Some(target) => if drift_step_faults(target, current) {
                        None
                    } else {
                        match drift_bps(target - current, current as int) {
                            None => Some(Err(RebalancingError::CalculationFailed)),
                            Some(d) => Some(
                                Ok(
                                    if d > m {
                                        d
                                    } else {
                                        m
                                    },
                                ),
                            ),
                        }
                    },
                }
            },
        }
    }
}

pub open spec fn paired_len(a: int, b: int) -> int {
    if a < b {
        a
    } else {
        b
    }
}

/// An allocation keeps its share within 100% and between its own bounds.
pub open spec fn target_ok(a: AllocationTarget) -> bool {
    a.allocation_bps <= 10000 && a.min_allocation_bps <= a.allocation_bps && a.max_allocation_bps
        >= a.allocation_bps
}

pub open spec fn bps_sum(allocations: Seq<AllocationTarget>) -> int
    decreases allocations.len(),
{
    if allocations.len() == 0 {
        0
    } else {
        bps_sum(allocations.drop_last()) + allocations.last().allocation_bps
    }
}

/// Valid allocations: each within its bounds and all together at most 100%.
pub open spec fn valid_allocations(allocations: Seq<AllocationTarget>) -> bool {
    &&& forall|i: int| 0 <= i < allocations.len() ==> target_ok(#[trigger] allocations[i])
    &&& bps_sum(allocations) <= 10000
}

proof fn lemma_bps_sum_grows(allocations: Seq<AllocationTarget>, k: int)
    requires
        0 <= k <= allocations.len(),
    ensures
        bps_sum(allocations.take(k)) <= bps_sum(allocations),
    decreases allocations.len() - k,
{
    if k < allocations.len() {
        assert(allocations.take(k + 1).drop_last() =~= allocations.take(k));
        lemma_bps_sum_grows(allocations, k + 1);
    } else {
        assert(allocations.take(k) =~= allocations);
    }
}

/// One step of a drift computation: the deviation and its drift, or the
/// failure of the scaled deviation to stay within `u128`.
fn drift_step(target: i128, current: i128) -> (r: Option<(i128, u32)>)
    requires
        !drift_step_faults(target as int, current),
    ensures
        r matches Some((dev, d)) ==> dev == target - current && drift_bps(target - current, current as int)
            == Some(d),
        r is None ==> drift_bps(target - current, current as int) is None,
{
    let deviation = target - current;
    let deviation_abs = if deviation < 0 {
        -deviation
    } else {
        deviation
    };
    let current_abs = if current < 0 {
        -current
    } else {
        current
    };
    let drift = if current != 0 {
        let scaled = match (deviation_abs as u128).checked_mul(10000) {
            Some(m) => m,
            None => {
                return None;
            },
        };
        (scaled / (current_abs as u128)) as u32
    } else {
        10001
    };
    Some((deviation, drift))
}

fn target_step(total_aum: i128, bps: u32) -> (r: Option<i128>)
    ensures
        r matches Some(t) ==> target_amount(total_aum, bps) == Some(t as int),
        r is None ==> target_amount(total_aum, bps) is None,
{
    match (total_aum as u128).checked_mul(bps as u128) {
        Some(p) => Some((p / 10000) as i128),
        None => None,
    }
}

/// Validate allocation targets for rebalancing
pub fn validate_allocations(allocations: &Vec<AllocationTarget>) -> (r: Result<(), RebalancingError>)
    ensures
        r is Ok <==> valid_allocations(allocations@),
        r matches Err(e) ==> e == RebalancingError::InvalidTargetAllocation,
{
    let ghost allocs = allocations@;
    let mut total_bps: u32 = 0;
    let mut i: usize = 0;
    while i < allocations.len()
        invariant
            allocs == allocations@,
            0 <= i <= allocs.len(),
            forall|j: int| 0 <= j < i ==> target_ok(#[trigger] allocs[j]),
            bps_sum(allocs.take(i as int)) == total_bps,
            total_bps <= 10000,
        decreases allocs.len() - i,
    {
        let allocation = allocations[i];
        proof {
            assert(allocs.take(i + 1).drop_last() =~= allocs.take(i as int));
        }
        if allocation.allocation_bps > 10000 || allocation.min_allocation_bps > allocation.allocation_bps
            || allocation.max_allocation_bps < allocation.allocation_bps {
            assert(!target_ok(allocs[i as int]));
            return Err(RebalancingError::InvalidTargetAllocation);
        }
        total_bps = total_bps + allocation.allocation_bps;
        if total_bps > 10000 {
            proof {
                lemma_bps_sum_grows(allocs, i + 1);
            }
            return Err(RebalancingError::InvalidTargetAllocation);
        }
        i = i + 1;
    }
    proof {
        assert(allocs.take(i as int) =~= allocs);
    }
    Ok(())
}

impl StrategyBook {
    /// Check if a strategy may be rebalanced at `now`: only once its
    /// rebalance frequency has passed since the last rebalance.
    pub fn should_rebalance(&self, now: u64, strategy_id: u64) -> (r: Result<bool, RebalancingError>)
        requires
            self.wf(),
            self.strategies().contains_key(strategy_id) ==> self.strategies()[strategy_id].last_rebalance
                + self.strategies()[strategy_id].rebalance_frequency_seconds <= u64::MAX,
        ensures
            !self.strategies().contains_key(strategy_id) ==> r == Err::<bool, RebalancingError>(
                RebalancingError::StrategyNotFound,
            ),
            self.strategies().contains_key(strategy_id) ==> {
                let s = self.strategies()[strategy_id];
                r == if now < s.last_rebalance + s.rebalance_frequency_seconds {
                    Err::<bool, RebalancingError>(RebalancingError::TooFrequentRebalancing)
                } else {
                    Ok(true)
                }
            },
    {
        let strategy = match self.configs.get(&strategy_id) {
            Some(s) => s,
            None => {
                return Err(RebalancingError::StrategyNotFound);
            },
        };
        if now < strategy.last_rebalance + strategy.rebalance_frequency_seconds {
            return Err(RebalancingError::TooFrequentRebalancing);
        }
        Ok(true)
    }

    /// Calculate rebalancing adjustments required: for each allocation paired
    /// with its current amount, the deviation from the target where the drift
    /// exceeds the threshold, zero where it does not.
    pub fn calculate_rebalancing(&self, strategy_id: u64, current_allocations: &Vec<i128>, total_aum: i128) -> (r:
        Result<Vec<i128>, RebalancingError>)
        requires
            self.wf(),
            self.strategies().contains_key(strategy_id) && total_aum > 0 ==> {
                let s = self.strategies()[strategy_id];
                let k = paired_len(s.allocations@.len() as int, current_allocations@.len() as int);
                rebalance_run(
                    s.allocations@.take(k),
                    current_allocations@.take(k),
                    total_aum,
                    s.rebalance_threshold_bps,
                ) is Some
            },
        ensures
            !self.strategies().contains_key(strategy_id) ==> r == Err::<Vec<i128>, RebalancingError>(
                RebalancingError::StrategyNotFound,
            ),
            self.strategies().contains_key(strategy_id) && total_aum <= 0 ==> r == Err::<
                Vec<i128>,
                RebalancingError,
            >(RebalancingError::CalculationFailed),
            self.strategies().contains_key(strategy_id) && total_aum > 0 ==> {
                let s = self.strategies()[strategy_id];
                let k = paired_len(s.allocations@.len() as int, current_allocations@.len() as int);
                let run = rebalance_run(
                    s.allocations@.take(k),
                    current_allocations@.take(k),
                    total_aum,
                    s.rebalance_threshold_bps,
                );
                &&& r matches Ok(v) ==> run == Some(Ok::<Seq<i128>, RebalancingError>(v@))
                &&& r matches Err(e) ==> run == Some(Err::<Seq<i128>, RebalancingError>(e))
            },
    {
        let strategy = match self.configs.get(&strategy_id) {
            Some(s) => s,
            None => {
                return Err(RebalancingError::StrategyNotFound);
            },
        };
        if total_aum <= 0 {
            return Err(RebalancingError::CalculationFailed);
        }
        let ghost allocs = strategy.allocations@;
        let ghost currents = current_allocations@;
        let k = if strategy.allocations.len() < current_allocations.len() {
            strategy.allocations.len()
        } else {
            current_allocations.len()
        };
        let mut adjustments: Vec<i128> = Vec::new();
        let mut i: usize = 0;
        while i < k
            invariant
                allocs == strategy.allocations@,
                currents == current_allocations@,
                k == paired_len(allocs.len() as int, currents.len() as int),
                0 <= i <= k,
                self.strategies().contains_key(strategy_id),
                *strategy == self.strategies()[strategy_id],
                total_aum > 0,
                rebalance_run(allocs.take(k as int), currents.take(k as int), total_aum, strategy.rebalance_threshold_bps) is Some,
                rebalance_run(allocs.take(i as int), currents.take(i as int), total_aum, strategy.rebalance_threshold_bps)
                    == Some(Ok::<Seq<i128>, RebalancingError>(adjustments@)),
            decreases k - i,
        {
            let current_amount = current_allocations[i];
            let target = strategy.allocations[i];
            proof {
                assert(allocs.take(i + 1).drop_last() =~= allocs.take(i as int));
                assert(currents.take(i + 1).drop_last() =~= currents.take(i as int));
                lemma_rebalance_prefix_some(
                    allocs.take(k as int),
                    currents.take(k as int),
                    total_aum,
                    strategy.rebalance_threshold_bps,
                    i as int + 1,
                );
                assert(allocs.take(k as int).take(i + 1) =~= allocs.take(i + 1));
                assert(currents.take(k as int).take(i + 1) =~= currents.take(i + 1));
            }
            let target_value = match target_step(total_aum, target.allocation_bps) {
                Some(t) => t,
                None => {
                    proof {
                        lemma_rebalance_err_stays(
                            allocs.take(k as int),
                            currents.take(k as int),
                            total_aum,
                            strategy.rebalance_threshold_bps,
                            i as int + 1,
                        );
                    }
                    return Err(RebalancingError::CalculationFailed);
                },
            };
            let (deviation, drift) = match drift_step(target_value, current_amount) {
                Some(dd) => dd,
                None => {
                    proof {
                        lemma_rebalance_err_stays(
                            allocs.take(k as int),
                            currents.take(k as int),
                            total_aum,
                            strategy.rebalance_threshold_bps,
                            i as int + 1,
                        );
                    }
                    return Err(RebalancingError::CalculationFailed);
                },
            };
            if drift <= strategy.rebalance_threshold_bps {
                adjustments.push(0);
            } else {
                adjustments.push(deviation);
            }
            i = i + 1;
        }
        proof {
            assert(allocs.take(k as int).take(k as int) =~= allocs.take(k as int));
        }
        Ok(adjustments)
    }

    /// Execute rebalancing for a strategy: record `now` as its last rebalance.
    pub fn execute_rebalancing(&mut self, now: u64, strategy_id: u64) -> (r: Result<(), RebalancingError>)
        requires
            old(self).wf(),
        ensures
            final(self).wf(),
            !old(self).strategies().contains_key(strategy_id) ==> r == Err::<(), RebalancingError>(
                RebalancingError::StrategyNotFound,
            ) && final(self).strategies() == old(self).strategies(),
            old(self).strategies().contains_key(strategy_id) ==> {
                &&& r is Ok
                &&& final(self).strategies() == old(self).strategies().insert(
                    strategy_id,
                    StrategyConfig { last_rebalance: now, ..old(self).strategies()[strategy_id] },
                )
            },
            final(self).next_id() == old(self).next_id(),
            final(self).allocations() == old(self).allocations(),
            final(self).performance() == old(self).performance(),
            final(self).history() == old(self).history(),
            final(self).entry_counters() == old(self).entry_counters(),
    {
        match self.configs.remove(&strategy_id) {
            Some(mut strategy) => {
                strategy.last_rebalance = now;
                self.configs.insert(strategy_id, strategy);
                Ok(())
            },
            None => Err(RebalancingError::StrategyNotFound),
        }
    }

    /// Get rebalancing metrics for a strategy at `now`. A rebalance is due
    /// once the rebalancing period has passed, or as soon as some allocation
    /// drifts from its target by more than the threshold.
    pub fn get_rebalancing_metrics(
        &self,
        now: u64,
        strategy_id: u64,
        current_allocations: &Vec<i128>,
        total_aum: i128,
    ) -> (r: Result<RebalancingMetrics, RebalancingError>)
        requires
            self.wf(),
            self.strategies().contains_key(strategy_id) ==> {
                let s = self.strategies()[strategy_id];
                let k = paired_len(s.allocations@.len() as int, current_allocations@.len() as int);
                &&& now >= s.last_rebalance
                &&& max_drift_run(s.allocations@.take(k), current_allocations@.take(k), total_aum) is Some
                &&& max_drift_run(s.allocations@.take(k), current_allocations@.take(k), total_aum) matches Some(Ok(_))
                    ==> s.last_rebalance + s.rebalance_frequency_seconds <= u64::MAX
            },
        ensures
            !self.strategies().contains_key(strategy_id) ==> r == Err::<RebalancingMetrics, RebalancingError>(
                RebalancingError::StrategyNotFound,
            ),
            self.strategies().contains_key(strategy_id) ==> {
                let s = self.strategies()[strategy_id];
                let k = paired_len(s.allocations@.len() as int, current_allocations@.len() as int);
                let since = now - s.last_rebalance;
                let until = if since >= s.rebalance_frequency_seconds {
                    0
                } else {
                    s.rebalance_frequency_seconds - since
                };
                match max_drift_run(s.allocations@.take(k), current_allocations@.take(k), total_aum) {
                    Some(Ok(max_drift)) => r == Ok::<RebalancingMetrics, RebalancingError>(
                        RebalancingMetrics {
                            last_rebalance: s.last_rebalance,
                            next_rebalance: (s.last_rebalance + s.rebalance_frequency_seconds) as u64,
                            time_until_next_rebalance: until as u64,
                            should_rebalance: until == 0 || max_drift > s.rebalance_threshold_bps,
                            max_drift_bps: max_drift,
                            threshold_bps: s.rebalance_threshold_bps,
                        },
                    ),
                    Some(Err(e)) => r == Err::<RebalancingMetrics, RebalancingError>(e),
                    None => false,
                }
            },
    {
        let strategy = match self.configs.get(&strategy_id) {
            Some(s) => s,
            None => {
                return Err(RebalancingError::StrategyNotFound);
            },
        };
        let time_since_last_rebalance = now - strategy.last_rebalance;
        let time_until_next_rebalance = if time_since_last_rebalance >= strategy.rebalance_frequency_seconds {
            0
        } else {
            strategy.rebalance_frequency_seconds - time_since_last_rebalance
        };
        let max_drift = self.calculate_max_drift(strategy_id, current_allocations, total_aum)?;
        let should_rebalance = time_until_next_rebalance == 0 || max_drift > strategy.rebalance_threshold_bps;
        Ok(
            RebalancingMetrics {
                last_rebalance: strategy.last_rebalance,
                next_rebalance: strategy.last_rebalance + strategy.rebalance_frequency_seconds,
                time_until_next_rebalance,
                should_rebalance,
                max_drift_bps: max_drift,
                threshold_bps: strategy.rebalance_threshold_bps,
            },
        )
    }

    /// Calculate maximum drift across all allocations
    fn calculate_max_drift(&self, strategy_id: u64, current_allocations: &Vec<i128>, total_aum: i128) -> (r:
        Result<u32, RebalancingError>)
        requires
            self.wf(),
            self.strategies().contains_key(strategy_id) ==> {
                let s = self.strategies()[strategy_id];
                let k = paired_len(s.allocations@.len() as int, current_allocations@.len() as int);
                max_drift_run(s.allocations@.take(k), current_allocations@.take(k), total_aum) is Some
            },
        ensures
            !self.strategies().contains_key(strategy_id) ==> r == Err::<u32, RebalancingError>(
                RebalancingError::StrategyNotFound,
            ),
            self.strategies().contains_key(strategy_id) ==> {
                let s = self.strategies()[strategy_id];
                let k = paired_len(s.allocations@.len() as int, current_allocations@.len() as int);
                max_drift_run(s.allocations@.take(k), current_allocations@.take(k), total_aum) == Some(r)
            },
    {
        let strategy = match self.configs.get(&strategy_id) {
            Some(s) => s,
            None => {
                return Err(RebalancingError::StrategyNotFound);
            },
        };
        let ghost allocs = strategy.allocations@;
        let ghost currents = current_allocations@;
        let k = if strategy.allocations.len() < current_allocations.len() {
            strategy.allocations.len()
        } else {
            current_allocations.len()
        };
        let mut max_drift: u32 = 0;
        let mut i: usize = 0;
        while i < k
            invariant
                allocs == strategy.allocations@,
                currents == current_allocations@,
                k == paired_len(allocs.len() as int, currents.len() as int),
                0 <= i <= k,
                self.strategies().contains_key(strategy_id),
                *strategy == self.strategies()[strategy_id],
                max_drift_run(allocs.take(k as int), currents.take(k as int), total_aum) is Some,
                max_drift_run(allocs.take(i as int), currents.take(i as int), total_aum) == Some(
                    Ok::<u32, RebalancingError>(max_drift),
                ),
            decreases k - i,
        {
            let current_amount = current_allocations[i];
            let target = strategy.allocations[i];
            proof {
                assert(allocs.take(i + 1).drop_last() =~= allocs.take(i as int));
                assert(currents.take(i + 1).drop_last() =~= currents.take(i as int));
                lemma_max_drift_prefix_some(
                    allocs.take(k as int),
                    currents.take(k as int),
                    total_aum,
                    i as int + 1,
                );
                assert(allocs.take(k as int).take(i + 1) =~= allocs.take(i + 1));
                assert(currents.take(k as int).take(i + 1) =~= currents.take(i + 1));
            }
            let target_value = match target_step(total_aum, target.allocation_bps) {
                Some(t) => t,
                None => {
                    proof {
                        lemma_max_drift_err_stays(allocs.take(k as int), currents.take(k as int), total_aum, i as int + 1);
                    }
                    return Err(RebalancingError::CalculationFailed);
                },
            };
            let (_, drift) = match drift_step(target_value, current_amount) {
                Some(dd) => dd,
                None => {
                    proof {
                        lemma_max_drift_err_stays(allocs.take(k as int), currents.take(k as int), total_aum, i as int + 1);
                    }
                    return Err(RebalancingError::CalculationFailed);
                },
            };
            if drift > max_drift {
                max_drift = drift;
            }
            i = i + 1;
        }
        proof {
            assert(allocs.take(k as int).take(k as int) =~= allocs.take(k as int));
        }
        Ok(max_drift)
    }
}

proof fn lemma_rebalance_prefix_some(
    allocations: Seq<AllocationTarget>,
    currents: Seq<i128>,
    total_aum: i128,
    threshold: u32,
    j: int,
)
    requires
        allocations.len() == currents.len(),
        0 <= j <= allocations.len(),
        rebalance_run(allocations, currents, total_aum, threshold) is Some,
    ensures
        rebalance_run(allocations.take(j), currents.take(j), total_aum, threshold) is Some,
    decreases allocations.len() - j,
{
    if j == allocations.len() {
        assert(allocations.take(j) =~= allocations);
        assert(currents.take(j) =~= currents);
    } else {
        lemma_rebalance_prefix_some(allocations, currents, total_aum, threshold, j + 1);
        assert(allocations.take(j + 1).drop_last() =~= allocations.take(j));
        assert(currents.take(j + 1).drop_last() =~= currents.take(j));
    }
}

proof fn lemma_rebalance_err_stays(
    allocations: Seq<AllocationTarget>,
    currents: Seq<i128>,
    total_aum: i128,
    threshold: u32,
    j: int,
)
    requires
        allocations.len() == currents.len(),
        0 < j <= allocations.len(),
        rebalance_run(allocations.take(j), currents.take(j), total_aum, threshold) matches Some(Err(_)),
    ensures
        rebalance_run(allocations, currents, total_aum, threshold) == rebalance_run(
            allocations.take(j),
            currents.take(j),
            total_aum,
            threshold,
        ),
    decreases allocations.len() - j,
{
    if j == allocations.len() {
        assert(allocations.take(j) =~= allocations);
        assert(currents.take(j) =~= currents);
    } else {
        assert(allocations.take(j + 1).drop_last() =~= allocations.take(j));
        assert(currents.take(j + 1).drop_last() =~= currents.take(j));
        lemma_rebalance_err_stays(allocations, currents, total_aum, threshold, j + 1);
    }
}

proof fn lemma_max_drift_prefix_some(allocations: Seq<AllocationTarget>, currents: Seq<i128>, total_aum: i128, j: int)
    requires
        allocations.len() == currents.len(),
        0 <= j <= allocations.len(),
        max_drift_run(allocations, currents, total_aum) is Some,
    ensures
        max_drift_run(allocations.take(j), currents.take(j), total_aum) is Some,
    decreases allocations.len() - j,
{
    if j == allocations.len() {
        assert(allocations.take(j) =~= allocations);
        assert(currents.take(j) =~= currents);
    } else {
        lemma_max_drift_prefix_some(allocations, currents, total_aum, j + 1);
        assert(allocations.take(j + 1).drop_last() =~= allocations.take(j));
        assert(currents.take(j + 1).drop_last() =~= currents.take(j));
    }
}

proof fn lemma_max_drift_err_stays(allocations: Seq<AllocationTarget>, currents: Seq<i128>, total_aum: i128, j: int)
    requires
        allocations.len() == currents.len(),
        0 < j <= allocations.len(),
        max_drift_run(allocations.take(j), currents.take(j), total_aum) matches Some(Err(_)),
    ensures
        max_drift_run(allocations, currents, total_aum) == max_drift_run(
            allocations.take(j),
            currents.take(j),
            total_aum,
        ),
    decreases allocations.len() - j,
{
    if j == allocations.len() {
        assert(allocations.take(j) =~= allocations);
        assert(currents.take(j) =~= currents);
    } else {
        assert(allocations.take(j + 1).drop_last() =~= allocations.take(j));
        assert(currents.take(j + 1).drop_last() =~= currents.take(j));
        lemma_max_drift_err_stays(allocations, currents, total_aum, j + 1);
    }
}

} // verus!
