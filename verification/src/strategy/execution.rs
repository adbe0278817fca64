//! Strategy execution logic for automated investment and yield optimization

use vstd::prelude::*;

use super::{AllocationInstance, AllocationTarget, StrategyBook, StrategyConfig, StrategyType};
use crate::ledger::{fits, Address};

verus! {

#[derive(Clone, Copy, PartialEq, Eq, Structural, Debug)]
pub enum ExecutionError {
    /// Strategy not found
    StrategyNotFound,
    /// Invalid allocation
    InvalidAllocation,
    /// Allocation exceeds 100%
    AllocationExceedsCap,
    /// Insufficient balance
    InsufficientBalance,
    /// Execution failed
    ExecutionFailed,
    /// Strategy not active
    StrategyNotActive,
}

/// The part of `total_amount` that `allocation_bps` basis points make, the
/// amount read as an unsigned 128-bit number.
pub open spec fn share_of(total_amount: i128, allocation_bps: u32) -> int {
    ((total_amount as u128) as int * allocation_bps as int) / 10000
}

/// The distribution of `total_amount` over the first allocations, with the
/// sum of their basis points: allocations are taken in order, and the first
/// one above 100% fails with `InvalidAllocation`, a running sum beyond `u32`
/// with `AllocationExceedsCap`, and a share beyond `u128` with `InvalidAllocation`.
pub open spec fn distribution_run(allocations: Seq<AllocationTarget>, total_amount: i128) -> Result<
    (Seq<i128>, int),
    ExecutionError,
>
    decreases allocations.len(),
{
    if allocations.len() == 0 {
        Ok((Seq::empty(), 0))
    } else {
        match distribution_run(allocations.drop_last(), total_amount) {
            Err(e) => Err(e),
            Ok((amounts, bps_sum)) => {
                let a = allocations.last();
                if a.allocation_bps > 10000 {
                    Err(ExecutionError::InvalidAllocation)
                } else if bps_sum + a.allocation_bps > u32::MAX {
                    Err(ExecutionError::AllocationExceedsCap)
                } else if (total_amount as u128) as int * a.allocation_bps as int > u128::MAX {
                    Err(ExecutionError::InvalidAllocation)
                } else {
                    Ok((amounts.push(share_of(total_amount, a.allocation_bps) as i128), bps_sum + a.allocation_bps))
                }
            },
        }
    }
}

/// The distribution of `total_amount` over all allocations; it fails with
/// `AllocationExceedsCap` where the allocations add up to more than 100%.
pub open spec fn distribution(allocations: Seq<AllocationTarget>, total_amount: i128) -> Result<
    Seq<i128>,
    ExecutionError,
> {
    match distribution_run(allocations, total_amount) {
        Err(e) => Err(e),
        Ok((amounts, bps_sum)) => if bps_sum > 10000 {
            Err(ExecutionError::AllocationExceedsCap)
        } else {
            Ok(amounts)
        },
    }
}

pub open spec fn seq_sum(s: Seq<i128>) -> int
    decreases s.len(),
{
    if s.len() == 0 {
        0
    } else {
        seq_sum(s.drop_last()) + s.last()
    }
}

proof fn lemma_distribution_run(allocations: Seq<AllocationTarget>, total_amount: i128)
    requires
        distribution_run(allocations, total_amount) is Ok,
    ensures
        ({
            let (amounts, bps_sum) = distribution_run(allocations, total_amount)->Ok_0;
            &&& amounts.len() == allocations.len()
            &&& forall|i: int|
                0 <= i < allocations.len() ==> amounts[i] == share_of(
                    total_amount,
                    #[trigger] allocations[i].allocation_bps,
                )
            &&& 0 <= bps_sum <= u32::MAX
            &&& total_amount >= 0 ==> seq_sum(amounts) * 10000 <= total_amount * bps_sum
        }),
    decreases allocations.len(),
{
    if allocations.len() > 0 {
        let prefix = allocations.drop_last();
        lemma_distribution_run(prefix, total_amount);
        let (amounts, bps_sum) = distribution_run(prefix, total_amount)->Ok_0;
        let a = allocations.last();
        let x = share_of(total_amount, a.allocation_bps);
        let new_amounts = amounts.push(x as i128);
        assert(new_amounts.drop_last() =~= amounts);
        assert forall|i: int| 0 <= i < allocations.len() implies new_amounts[i] == share_of(
            total_amount,
            #[trigger] allocations[i].allocation_bps,
        ) by {
            if i < allocations.len() - 1 {
                assert(allocations[i] == prefix[i]);
            }
        }
        if total_amount >= 0 {
            let t = total_amount as int;
            let b = a.allocation_bps as int;
            assert((total_amount as u128) as int == t);
            assert(x * 10000 <= t * b) by (nonlinear_arith)
                requires
                    x == (t * b) / 10000,
                    t >= 0,
                    b >= 0,
            ;
            assert(0 <= x <= u128::MAX / 10000) by (nonlinear_arith)
                requires
                    x == (t * b) / 10000,
                    t >= 0,
                    b >= 0,
                    t * b <= u128::MAX,
            ;
            assert(seq_sum(new_amounts) == seq_sum(amounts) + x);
            assert(t * (bps_sum + b) == t * bps_sum + t * b) by (nonlinear_arith);
        }
    }
}

/// The distribution law: a distribution of a non-negative amount gives each
/// allocation its share, and the shares together never exceed the amount.
pub proof fn lemma_distribution_within_total(allocations: Seq<AllocationTarget>, total_amount: i128)
    requires
        distribution(allocations, total_amount) is Ok,
    ensures
        ({
            let amounts = distribution(allocations, total_amount)->Ok_0;
            &&& amounts.len() == allocations.len()
            &&& forall|i: int|
                0 <= i < allocations.len() ==> amounts[i] == share_of(
                    total_amount,
                    #[trigger] allocations[i].allocation_bps,
                )
            &&& total_amount >= 0 ==> seq_sum(amounts) <= total_amount
        }),
{
    lemma_distribution_run(allocations, total_amount);
    let (amounts, bps_sum) = distribution_run(allocations, total_amount)->Ok_0;
    if total_amount >= 0 {
        let t = total_amount as int;
        assert(seq_sum(amounts) <= t) by (nonlinear_arith)
            requires
                seq_sum(amounts) * 10000 <= t * bps_sum,
                0 <= bps_sum <= 10000,
                t >= 0,
        ;
    }
}

/// Calculate distribution amounts based on strategy allocations
pub fn calculate_distribution(strategy: &StrategyConfig, total_amount: i128) -> (r: Result<
    Vec<i128>,
    ExecutionError,
>)
    ensures
        r matches Ok(d) ==> distribution(strategy.allocations@, total_amount) == Ok::<
            Seq<i128>,
            ExecutionError,
        >(d@),
        r matches Err(e) ==> distribution(strategy.allocations@, total_amount) == Err::<
            Seq<i128>,
            ExecutionError,
        >(e),
{
    let mut distribution: Vec<i128> = Vec::new();
    let mut total_allocation_bps: u32 = 0;
    let n = strategy.allocations.len();
    let ghost allocs = strategy.allocations@;
    let mut i: usize = 0;
    while i < n
        invariant
            n == allocs.len(),
            allocs == strategy.allocations@,
            0 <= i <= n,
            distribution_run(allocs.take(i as int), total_amount) == Ok::<
                (Seq<i128>, int),
                ExecutionError,
            >((distribution@, total_allocation_bps as int)),
        decreases n - i,
    {
        let allocation = strategy.allocations[i];
        proof {
            assert(allocs.take(i + 1).drop_last() =~= allocs.take(i as int));
            assert(allocs.take(i + 1).last() == allocation);
        }
        if allocation.allocation_bps > 10000 {
            proof {
                lemma_run_fails_later(allocs, total_amount, i as int + 1);
            }
            return Err(ExecutionError::InvalidAllocation);
        }
        total_allocation_bps = match total_allocation_bps.checked_add(allocation.allocation_bps) {
            Some(t) => t,
            None => {
                proof {
                    lemma_run_fails_later(allocs, total_amount, i as int + 1);
                }
                return Err(ExecutionError::AllocationExceedsCap);
            },
        };
        let product = match (total_amount as u128).checked_mul(allocation.allocation_bps as u128) {
            Some(p) => p,
            None => {
                proof {
                    lemma_run_fails_later(allocs, total_amount, i as int + 1);
                }
                return Err(ExecutionError::InvalidAllocation);
            },
        };
        let amount = (product / 10000) as i128;
        distribution.push(amount);
        i = i + 1;
    }
    proof {
        assert(allocs.take(n as int) =~= allocs);
    }
    if total_allocation_bps > 10000 {
        return Err(ExecutionError::AllocationExceedsCap);
    }
    Ok(distribution)
}

/// Once a prefix of the allocations fails, every longer prefix fails the same way.
proof fn lemma_run_fails_later(allocs: Seq<AllocationTarget>, total_amount: i128, k: int)
    requires
        0 < k <= allocs.len(),
        distribution_run(allocs.take(k), total_amount) is Err,
    ensures
        distribution_run(allocs, total_amount) == distribution_run(allocs.take(k), total_amount),
    decreases allocs.len() - k,
{
    if k < allocs.len() {
        assert(allocs.take(k + 1).drop_last() =~= allocs.take(k));
        lemma_run_fails_later(allocs, total_amount, k + 1);
    } else {
        assert(allocs.take(k) =~= allocs);
    }
}

/// A fresh allocation of `owner` in strategy `strategy_id` made at `now`.
pub open spec fn fresh_instance(strategy_id: u64, owner: Address, now: u64) -> AllocationInstance {
    AllocationInstance { strategy_id, owner, amount: 0, allocated_at: now, pending_rewards: 0 }
}

/// Adding each positive amount, in order, to the owner's allocation (a fresh
/// one where there was none), stamped `now`: the allocation reached and
/// whether an addition overflowed, which stops the run.
pub open spec fn allocation_run(
    start: Option<AllocationInstance>,
    amounts: Seq<i128>,
    strategy_id: u64,
    owner: Address,
    now: u64,
) -> (Option<AllocationInstance>, bool)
    decreases amounts.len(),
{
    if amounts.len() == 0 {
        (start, false)
    } else {
        let (current, failed) = allocation_run(start, amounts.drop_last(), strategy_id, owner, now);
        let amount = amounts.last();
        if failed || amount <= 0 {
            (current, failed)
        } else {
            let base = match current {
                Some(c) => c,
                None => fresh_instance(strategy_id, owner, now),
            };
            if !fits(base.amount + amount) {
                (current, true)
            } else {
                (Some(AllocationInstance { amount: (base.amount + amount) as i128, allocated_at: now, ..base }), false)
            }
        }
    }
}

/// The sum of the positive amounts of `amounts`.
pub open spec fn positive_sum(amounts: Seq<i128>) -> int
    decreases amounts.len(),
{
    if amounts.len() == 0 {
        0
    } else {
        positive_sum(amounts.drop_last()) + if amounts.last() > 0 {
            amounts.last() as int
        } else {
            0
        }
    }
}

/// The amount held on an allocation record, zero where there is none.
pub open spec fn held_amount(record: Option<AllocationInstance>) -> int {
    match record {
        Some(c) => c.amount as int,
        None => 0,
    }
}

/// Booking amounts without an overflow adds them up on the allocation: where
/// any amount is positive, the allocation afterwards holds what it held
/// before (nothing where there was no record) plus the sum of the positive
/// amounts, is stamped `now`, and keeps the strategy, owner and pending
/// rewards of the record it started from (of a fresh record where there was
/// none); where no amount is positive, the record is left as it was.
pub proof fn lemma_allocation_run_adds(
    start: Option<AllocationInstance>,
    amounts: Seq<i128>,
    strategy_id: u64,
    owner: Address,
    now: u64,
)
    requires
        !allocation_run(start, amounts, strategy_id, owner, now).1,
    ensures
        ({
            let inst = allocation_run(start, amounts, strategy_id, owner, now).0;
            let total = positive_sum(amounts);
            &&& total >= 0
            &&& total == 0 ==> inst == start
            &&& total > 0 ==> {
                &&& inst is Some
                &&& inst->0.amount == held_amount(start) + total
                &&& inst->0.allocated_at == now
                &&& start matches Some(c) ==> {
                    &&& inst->0.strategy_id == c.strategy_id
                    &&& inst->0.owner == c.owner
                    &&& inst->0.pending_rewards == c.pending_rewards
                }
                &&& start is None ==> {
                    &&& inst->0.strategy_id == strategy_id
                    &&& inst->0.owner == owner
                    &&& inst->0.pending_rewards == 0
                }
            }
        }),
    decreases amounts.len(),
{
    if amounts.len() > 0 {
        let prefix = amounts.drop_last();
        assert(!allocation_run(start, prefix, strategy_id, owner, now).1);
        lemma_allocation_run_adds(start, prefix, strategy_id, owner, now);
    }
}

/// Executing a strategy adds to the owner's allocation: after a booking that
/// did not overflow, under a strategy that books its distribution, the
/// owner's allocation in the strategy holds what it held before plus the sum
/// of the positive amounts booked, where any was positive; where none was,
/// the allocation records are unchanged.
pub proof fn lemma_booking_adds(
    before: StrategyBook,
    after: StrategyBook,
    strategy: StrategyConfig,
    owner: Address,
    distribution: Seq<i128>,
    now: u64,
)
    requires
        books_allocations(strategy.strategy_type),
        booked(before, after, strategy, owner, distribution, now),
        !booking_overflows(before, strategy, owner, distribution, now),
    ensures
        ({
            let key = (strategy.id, owner);
            let k = min_len(strategy.allocations@.len() as int, distribution.len() as int);
            let total = positive_sum(distribution.take(k));
            &&& total == 0 ==> after.allocations() == before.allocations()
            &&& total > 0 ==> {
                &&& after.allocations().contains_key(key)
                &&& after.allocations()[key].amount == held_amount(before.allocations().get(key)) + total
                &&& forall|other: (u64, Address)|
                    other != key ==> after.allocations().get(other) == before.allocations().get(other)
            }
        }),
{
    let key = (strategy.id, owner);
    let k = min_len(strategy.allocations@.len() as int, distribution.len() as int);
    let start = before.allocations().get(key);
    lemma_allocation_run_adds(start, distribution.take(k), strategy.id, owner, now);
    if positive_sum(distribution.take(k)) == 0 {
        if let Some(c) = start {
            assert(before.allocations().insert(key, c) =~= before.allocations());
        }
    }
}

/// Whether a strategy of this type books its distribution on the owner's
/// allocation record; the yield-farming, staking and liquidity-providing
/// kinds record nothing here.
pub open spec fn books_allocations(t: StrategyType) -> bool {
    !(t == StrategyType::YieldFarming || t == StrategyType::Staking || t == StrategyType::LiquidityProviding)
}

pub open spec fn min_len(a: int, b: int) -> int {
    if a < b {
        a
    } else {
        b
    }
}

impl StrategyBook {
    /// Execute a strategy for a user: distribute `total_amount` and book it.
    pub fn execute_strategy(&mut self, now: u64, strategy_id: u64, owner: Address, total_amount: i128) -> (r:
        Result<Vec<i128>, ExecutionError>)
        requires
            old(self).wf(),
        ensures
            final(self).wf(),
            final(self).strategies() == old(self).strategies(),
            final(self).next_id() == old(self).next_id(),
            final(self).performance() == old(self).performance(),
            final(self).history() == old(self).history(),
            final(self).entry_counters() == old(self).entry_counters(),
            !old(self).strategies().contains_key(strategy_id) ==> r == Err::<Vec<i128>, ExecutionError>(
                ExecutionError::StrategyNotFound,
            ),
            old(self).strategies().contains_key(strategy_id) ==> {
                let s = old(self).strategies()[strategy_id];
                let d = distribution(s.allocations@, total_amount);
                &&& !s.active ==> r == Err::<Vec<i128>, ExecutionError>(ExecutionError::StrategyNotActive)
                &&& s.active && d is Err ==> r == Err::<Vec<i128>, ExecutionError>(d->Err_0)
                &&& s.active && d is Ok ==> {
                    let amounts = d->Ok_0;
                    &&& booked(*old(self), *final(self), s, owner, amounts, now)
                    &&& r is Err <==> booking_overflows(*old(self), s, owner, amounts, now)
                    &&& r matches Ok(v) ==> v@ == amounts
                    &&& r matches Err(e) ==> e == ExecutionError::InvalidAllocation
                }
                &&& (!s.active || d is Err) ==> final(self).allocations() == old(self).allocations()
            },
    {
        let (sid, stype, n) = match self.configs.get(&strategy_id) {
            Some(s) => {
                if !s.active {
                    return Err(ExecutionError::StrategyNotActive);
                }
                (s.id, s.strategy_type, s.allocations.len())
            },
            None => {
                return Err(ExecutionError::StrategyNotFound);
            },
        };
        let distribution = match self.configs.get(&strategy_id) {
            Some(s) => calculate_distribution(s, total_amount)?,
            None => {
                return Err(ExecutionError::StrategyNotFound);
            },
        };
        self.book_allocations(now, sid, stype, n, owner, &distribution)?;
        Ok(distribution)
    }

    /// Execute allocations to respective targets: each positive amount of the
    /// distribution, as far as there are allocations, is booked on the owner's
    /// allocation record in this strategy.
    pub fn execute_allocations(
        &mut self,
        now: u64,
        strategy: &StrategyConfig,
        owner: Address,
        distribution: &Vec<i128>,
    ) -> (r: Result<(), ExecutionError>)
        requires
            old(self).wf(),
        ensures
            final(self).wf(),
            final(self).strategies() == old(self).strategies(),
            final(self).next_id() == old(self).next_id(),
            final(self).performance() == old(self).performance(),
            final(self).history() == old(self).history(),
            final(self).entry_counters() == old(self).entry_counters(),
            booked(*old(self), *final(self), *strategy, owner, distribution@, now),
            r is Err <==> booking_overflows(*old(self), *strategy, owner, distribution@, now),
            r matches Err(e) ==> e == ExecutionError::InvalidAllocation,
    {
        self.book_allocations(
            now,
            strategy.id,
            strategy.strategy_type,
            strategy.allocations.len(),
            owner,
            distribution,
        )
    }

    fn book_allocations(
        &mut self,
        now: u64,
        strategy_id: u64,
        strategy_type: StrategyType,
        n_allocations: usize,
        owner: Address,
        distribution: &Vec<i128>,
    ) -> (r: Result<(), ExecutionError>)
        requires
            old(self).wf(),
        ensures
            final(self).wf(),
            final(self).strategies() == old(self).strategies(),
            final(self).next_id() == old(self).next_id(),
            final(self).performance() == old(self).performance(),
            final(self).history() == old(self).history(),
            final(self).entry_counters() == old(self).entry_counters(),
            ({
                let k = min_len(n_allocations as int, distribution@.len() as int);
                let start = old(self).allocations().get((strategy_id, owner));
                let (inst, failed) = allocation_run(start, distribution@.take(k), strategy_id, owner, now);
                &&& !books_allocations(strategy_type) ==> final(self).allocations() == old(self).allocations()
                    && r is Ok
                &&& books_allocations(strategy_type) ==> {
                    &&& final(self).allocations() == match inst {
                        Some(i) => old(self).allocations().insert((strategy_id, owner), i),
                        None => old(self).allocations(),
                    }
                    &&& r is Err <==> failed
                    &&& r matches Err(e) ==> e == ExecutionError::InvalidAllocation
                }
            }),
    {
        if !(strategy_type != StrategyType::YieldFarming && strategy_type != StrategyType::Staking
            && strategy_type != StrategyType::LiquidityProviding) {
            return Ok(());
        }
        let k = if n_allocations < distribution.len() {
            n_allocations
        } else {
            distribution.len()
        };
        let ghost amounts = distribution@.take(k as int);
        let ghost start = self.allocations().get((strategy_id, owner));
        let mut current = self.get_allocation_instance(strategy_id, owner);
        let mut i: usize = 0;
        while i < k
            invariant
                self.wf(),
                books_allocations(strategy_type),
                k == min_len(n_allocations as int, distribution@.len() as int),
                k <= distribution@.len(),
                amounts == distribution@.take(k as int),
                0 <= i <= k,
                start == old(self).allocations().get((strategy_id, owner)),
                allocation_run(start, amounts.take(i as int), strategy_id, owner, now) == (current, false),
                self.allocations() == match current {
                    Some(c) => old(self).allocations().insert((strategy_id, owner), c),
                    None => old(self).allocations(),
                },
                self.strategies() == old(self).strategies(),
                self.next_id() == old(self).next_id(),
                self.performance() == old(self).performance(),
                self.history() == old(self).history(),
                self.entry_counters() == old(self).entry_counters(),
            decreases k - i,
        {
            let amount = distribution[i];
            proof {
                assert(amounts.take(i + 1).drop_last() =~= amounts.take(i as int));
                assert(amounts.take(i + 1).last() == amount);
            }
            if amount > 0 {
                let base = match current {
                    Some(c) => c,
                    None => AllocationInstance {
                        strategy_id,
                        owner,
                        amount: 0,
                        allocated_at: now,
                        pending_rewards: 0,
                    },
                };
                let sum = match base.amount.checked_add(amount) {
                    Some(s) => s,
                    None => {
                        proof {
                            assert(allocation_run(start, amounts.take(i + 1), strategy_id, owner, now) == (
                            current, true));
                            lemma_allocation_run_stays_failed(
                                start,
                                amounts,
                                strategy_id,
                                owner,
                                now,
                                i as int + 1,
                            );
                            assert(amounts.take(k as int) =~= amounts);
                        }
                        return Err(ExecutionError::InvalidAllocation);
                    },
                };
                let updated = AllocationInstance { amount: sum, allocated_at: now, ..base };
                self.update_allocation_instance(strategy_id, owner, updated);
                proof {
                    assert(self.allocations() =~= old(self).allocations().insert((strategy_id, owner), updated));
                }
                current = Some(updated);
            }
            i = i + 1;
        }
        proof {
            assert(amounts.take(k as int) =~= amounts);
        }
        Ok(())
    }

    /// Get distribution for a specific strategy and amount
    pub fn get_strategy_distribution(&self, strategy_id: u64, total_amount: i128) -> (r: Result<
        Vec<i128>,
        ExecutionError,
    >)
        requires
            self.wf(),
        ensures
            !self.strategies().contains_key(strategy_id) ==> r == Err::<Vec<i128>, ExecutionError>(
                ExecutionError::StrategyNotFound,
            ),
            self.strategies().contains_key(strategy_id) ==> {
                let d = distribution(self.strategies()[strategy_id].allocations@, total_amount);
                &&& r matches Ok(v) ==> d == Ok::<Seq<i128>, ExecutionError>(v@)
                &&& r matches Err(e) ==> d == Err::<Seq<i128>, ExecutionError>(e)
            },
    {
        match self.configs.get(&strategy_id) {
            Some(s) => calculate_distribution(s, total_amount),
            None => Err(ExecutionError::StrategyNotFound),
        }
    }
}

/// How booking `distribution` for `owner` under `strategy` changes the
/// allocation records from `before` to `after`.
pub open spec fn booked(
    before: StrategyBook,
    after: StrategyBook,
    strategy: StrategyConfig,
    owner: Address,
    distribution: Seq<i128>,
    now: u64,
) -> bool {
    let k = min_len(strategy.allocations@.len() as int, distribution.len() as int);
    let start = before.allocations().get((strategy.id, owner));
    let (inst, failed) = allocation_run(start, distribution.take(k), strategy.id, owner, now);
    if books_allocations(strategy.strategy_type) {
        after.allocations() == match inst {
            Some(i) => before.allocations().insert((strategy.id, owner), i),
            None => before.allocations(),
        }
    } else {
        after.allocations() == before.allocations()
    }
}

/// Booking `distribution` would overflow the owner's allocation.
pub open spec fn booking_overflows(
    before: StrategyBook,
    strategy: StrategyConfig,
    owner: Address,
    distribution: Seq<i128>,
    now: u64,
) -> bool {
    let k = min_len(strategy.allocations@.len() as int, distribution.len() as int);
    let start = before.allocations().get((strategy.id, owner));
    books_allocations(strategy.strategy_type) && allocation_run(
        start,
        distribution.take(k),
        strategy.id,
        owner,
        now,
    ).1
}

proof fn lemma_allocation_run_stays_failed(
    start: Option<AllocationInstance>,
    amounts: Seq<i128>,
    strategy_id: u64,
    owner: Address,
    now: u64,
    k: int,
)
    requires
        0 < k <= amounts.len(),
        allocation_run(start, amounts.take(k), strategy_id, owner, now).1,
    ensures
        allocation_run(start, amounts, strategy_id, owner, now) == allocation_run(
            start,
            amounts.take(k),
            strategy_id,
            owner,
            now,
        ),
    decreases amounts.len() - k,
{
    if k < amounts.len() {
        assert(amounts.take(k + 1).drop_last() =~= amounts.take(k));
        lemma_allocation_run_stays_failed(start, amounts, strategy_id, owner, now, k + 1);
    } else {
        assert(amounts.take(k) =~= amounts);
    }
}

} // verus!
