//! Automated strategy execution for tip investments and yield optimization:
//! strategy records, proportional distribution, rebalancing, performance
//! figures and an event history.

pub mod execution;
pub mod history;
pub mod performance;
pub mod rebalancing;

use vstd::prelude::*;

use crate::ledger::{copy_list, Address};
use crate::table::Table;

use self::history::HistoryEntry;
use self::performance::PerformanceMetrics;

verus! {

/// Strategy types for automated tip investment and yield optimization
#[derive(Clone, Copy, PartialEq, Eq, Structural, Debug)]
pub enum StrategyType {
    /// Conservative strategy: low-risk, stable yield
    Conservative,
    /// Balanced strategy: moderate risk and yield
    Balanced,
    /// Aggressive strategy: high-risk, high yield potential
    Aggressive,
    /// Index-tracking strategy: follows market index
    IndexTracking,
    /// Liquidity providing strategy: provides LP to AMMs
    LiquidityProviding,
    /// Yield farming strategy: farm tokens for rewards
    YieldFarming,
    /// Staking strategy: stake tokens for rewards
    Staking,
    /// Custom strategy: user-defined allocations
    Custom,
}

/// Allocation target for a specific pool or investment
#[derive(Clone, Copy, PartialEq, Eq, Structural, Debug)]
pub struct AllocationTarget {
    /// Pool or investment identifier
    pub target_id: Address,
    /// Percentage allocation in basis points (0-10000)
    pub allocation_bps: u32,
    /// Minimum allocation to maintain
    pub min_allocation_bps: u32,
    /// Maximum allocation allowed
    pub max_allocation_bps: u32,
}

/// Strategy configuration
#[derive(Clone, Debug)]
pub struct StrategyConfig {
    /// Strategy identifier
    pub id: u64,
    /// Strategy type
    pub strategy_type: StrategyType,
    /// Strategy owner
    pub owner: Address,
    /// Allocations for this strategy
    pub allocations: Vec<AllocationTarget>,
    /// Only rebalance if allocation drifts more than this (basis points)
    pub rebalance_threshold_bps: u32,
    /// Rebalance frequency in seconds
    pub rebalance_frequency_seconds: u64,
    /// Last rebalance timestamp
    pub last_rebalance: u64,
    /// Performance fee in basis points (taken from returns)
    pub performance_fee_bps: u32,
    /// Management fee in basis points (annual)
    pub management_fee_bps: u32,
    /// Total assets under management (in smallest units)
    pub total_aum: i128,
    /// Creation timestamp
    pub created_at: u64,
    /// Is strategy active
    pub active: bool,
}

/// Individual allocation instance for a specific user/entity
#[derive(Clone, Copy, PartialEq, Eq, Structural, Debug)]
pub struct AllocationInstance {
    /// Strategy identifier
    pub strategy_id: u64,
    /// User/owner address
    pub owner: Address,
    /// Amount allocated (smallest units)
    pub amount: i128,
    /// Timestamp of last allocation
    pub allocated_at: u64,
    /// Pending rewards not yet harvested
    pub pending_rewards: i128,
}

/// `a` and `b` configure the same strategy: every field equal, the
/// allocations entry by entry.
pub open spec fn same_config(a: StrategyConfig, b: StrategyConfig) -> bool {
    &&& a.id == b.id
    &&& a.strategy_type == b.strategy_type
    &&& a.owner == b.owner
    &&& a.allocations@ == b.allocations@
    &&& a.rebalance_threshold_bps == b.rebalance_threshold_bps
    &&& a.rebalance_frequency_seconds == b.rebalance_frequency_seconds
    &&& a.last_rebalance == b.last_rebalance
    &&& a.performance_fee_bps == b.performance_fee_bps
    &&& a.management_fee_bps == b.management_fee_bps
    &&& a.total_aum == b.total_aum
    &&& a.created_at == b.created_at
    &&& a.active == b.active
}

/// A copy of a strategy configuration.
fn copy_config(c: &StrategyConfig) -> (r: StrategyConfig)
    ensures
        same_config(r, *c),
{
    StrategyConfig {
        id: c.id,
        strategy_type: c.strategy_type,
        owner: c.owner,
        allocations: copy_list(&c.allocations),
        rebalance_threshold_bps: c.rebalance_threshold_bps,
        rebalance_frequency_seconds: c.rebalance_frequency_seconds,
        last_rebalance: c.last_rebalance,
        performance_fee_bps: c.performance_fee_bps,
        management_fee_bps: c.management_fee_bps,
        total_aum: c.total_aum,
        created_at: c.created_at,
        active: c.active,
    }
}

/// The records of the strategy module: configurations, each owner's
/// allocation in each strategy, performance figures and history entries.
pub struct StrategyBook {
    configs: Table<u64, StrategyConfig>,
    instances: Table<(u64, Address), AllocationInstance>,
    next_id: u64,
    performance: Table<u64, PerformanceMetrics>,
    history: Table<(u64, u64), HistoryEntry>,
    entry_counters: Table<u64, u64>,
}

impl StrategyBook {
    pub closed spec fn wf(&self) -> bool {
        &&& self.configs.wf()
        &&& self.instances.wf()
        &&& self.performance.wf()
        &&& self.history.wf()
        &&& self.entry_counters.wf()
        &&& forall|id: u64| #[trigger] self.configs@.contains_key(id) ==> self.configs@[id].id == id
        &&& forall|k: (u64, u64)| #[trigger] self.history@.contains_key(k) ==> 1 <= k.1 < self.next_entry_id(k.0)
        &&& forall|s: u64| #[trigger] self.entry_counters@.contains_key(s) ==> self.entry_counters@[s] >= 1
    }

    /// The recorded entry counters by strategy.
    pub closed spec fn entry_counters(&self) -> Map<u64, u64> {
        self.entry_counters@
    }

    /// The identifier the next history entry of `strategy_id` receives; the
    /// first is 1.
    pub open spec fn next_entry_id(&self, strategy_id: u64) -> u64 {
        if self.entry_counters().contains_key(strategy_id) {
            self.entry_counters()[strategy_id]
        } else {
            1
        }
    }

    /// The strategies by identifier.
    pub closed spec fn strategies(&self) -> Map<u64, StrategyConfig> {
        self.configs@
    }

    /// The allocation of each owner in each strategy.
    pub closed spec fn allocations(&self) -> Map<(u64, Address), AllocationInstance> {
        self.instances@
    }

    /// The identifier the next strategy receives.
    pub closed spec fn next_id(&self) -> u64 {
        self.next_id
    }

    /// The stored performance figures by strategy.
    pub closed spec fn performance(&self) -> Map<u64, PerformanceMetrics> {
        self.performance@
    }

    /// The history entries by strategy and entry identifier.
    pub closed spec fn history(&self) -> Map<(u64, u64), HistoryEntry> {
        self.history@
    }

    /// An empty book; the first strategy receives identifier 1.
    pub fn new() -> (s: Self)
        ensures
            s.wf(),
            s.strategies() == Map::<u64, StrategyConfig>::empty(),
            s.allocations() == Map::<(u64, Address), AllocationInstance>::empty(),
            s.performance() == Map::<u64, PerformanceMetrics>::empty(),
            s.history() == Map::<(u64, u64), HistoryEntry>::empty(),
            s.next_id() == 1,
            s.entry_counters() == Map::<u64, u64>::empty(),
    {
        StrategyBook {
            configs: Table::new(),
            instances: Table::new(),
            next_id: 1,
            performance: Table::new(),
            history: Table::new(),
            entry_counters: Table::new(),
        }
    }

    /// Initialize strategy module with default state: the next identifier is 1.
    pub fn init_strategy_module(&mut self)
        requires
            old(self).wf(),
        ensures
            final(self).wf(),
            final(self).next_id() == 1,
            final(self).strategies() == old(self).strategies(),
            final(self).allocations() == old(self).allocations(),
            final(self).performance() == old(self).performance(),
            final(self).history() == old(self).history(),
            final(self).entry_counters() == old(self).entry_counters(),
    {
        self.next_id = 1;
    }

    /// Hands out the next strategy identifier and advances the counter.
    pub fn get_next_strategy_id(&mut self) -> (r: u64)
        requires
            old(self).wf(),
            old(self).next_id() < u64::MAX,
        ensures
            final(self).wf(),
            r == old(self).next_id(),
            final(self).next_id() == old(self).next_id() + 1,
            final(self).strategies() == old(self).strategies(),
            final(self).allocations() == old(self).allocations(),
            final(self).performance() == old(self).performance(),
            final(self).history() == old(self).history(),
            final(self).entry_counters() == old(self).entry_counters(),
    {
        let id = self.next_id;
        self.next_id = id + 1;
        id
    }

    /// Create a new strategy, active, with no assets, created and last
    /// rebalanced at `now`; returns its identifier.
    pub fn create_strategy(
        &mut self,
        now: u64,
        strategy_type: StrategyType,
        owner: Address,
        allocations: Vec<AllocationTarget>,
        rebalance_threshold_bps: u32,
        rebalance_frequency_seconds: u64,
        performance_fee_bps: u32,
        management_fee_bps: u32,
    ) -> (r: u64)
        requires
            old(self).wf(),
            old(self).next_id() < u64::MAX,
        ensures
            final(self).wf(),
            r == old(self).next_id(),
            final(self).next_id() == old(self).next_id() + 1,
            final(self).strategies().dom() == old(self).strategies().dom().insert(r),
            forall|id: u64|
                id != r && #[trigger] old(self).strategies().contains_key(id) ==> final(self).strategies()[id]
                    == old(self).strategies()[id],
            ({
                let s = final(self).strategies()[r];
                &&& s.id == r
                &&& s.strategy_type == strategy_type
                &&& s.owner == owner
                &&& s.allocations@ == allocations@
                &&& s.rebalance_threshold_bps == rebalance_threshold_bps
                &&& s.rebalance_frequency_seconds == rebalance_frequency_seconds
                &&& s.last_rebalance == now
                &&& s.performance_fee_bps == performance_fee_bps
                &&& s.management_fee_bps == management_fee_bps
                &&& s.total_aum == 0
                &&& s.created_at == now
                &&& s.active
            }),
            final(self).allocations() == old(self).allocations(),
            final(self).performance() == old(self).performance(),
            final(self).history() == old(self).history(),
            final(self).entry_counters() == old(self).entry_counters(),
    {
        let strategy_id = self.get_next_strategy_id();
        let strategy = StrategyConfig {
            id: strategy_id,
            strategy_type,
            owner,
            allocations,
            rebalance_threshold_bps,
            rebalance_frequency_seconds,
            last_rebalance: now,
            performance_fee_bps,
            management_fee_bps,
            total_aum: 0,
            created_at: now,
            active: true,
        };
        self.configs.insert(strategy_id, strategy);
        strategy_id
    }

    /// Get strategy configuration
    pub fn get_strategy(&self, strategy_id: u64) -> (r: Option<StrategyConfig>)
        requires
            self.wf(),
        ensures
            r matches Some(s) ==> self.strategies().contains_key(strategy_id) && same_config(
                s,
                self.strategies()[strategy_id],
            ),
            r is None ==> !self.strategies().contains_key(strategy_id),
    {
        match self.configs.get(&strategy_id) {
            Some(c) => Some(copy_config(c)),
            None => None,
        }
    }

    /// Get a strategy that is known to exist.
    pub fn get_strategy_or_panic(&self, strategy_id: u64) -> (r: StrategyConfig)
        requires
            self.wf(),
            self.strategies().contains_key(strategy_id),
        ensures
            same_config(r, self.strategies()[strategy_id]),
    {
        copy_config(self.configs.get(&strategy_id).unwrap())
    }

    /// Update strategy configuration: store it under its own identifier.
    pub fn update_strategy(&mut self, strategy: StrategyConfig)
        requires
            old(self).wf(),
        ensures
            final(self).wf(),
            final(self).strategies() == old(self).strategies().insert(strategy.id, strategy),
            final(self).next_id() == old(self).next_id(),
            final(self).allocations() == old(self).allocations(),
            final(self).performance() == old(self).performance(),
            final(self).history() == old(self).history(),
            final(self).entry_counters() == old(self).entry_counters(),
    {
        let id = strategy.id;
        self.configs.insert(id, strategy);
    }

    /// Get allocation instance
    pub fn get_allocation_instance(&self, strategy_id: u64, owner: Address) -> (r: Option<AllocationInstance>)
        requires
            self.wf(),
        ensures
            r == (if self.allocations().contains_key((strategy_id, owner)) {
                Some(self.allocations()[(strategy_id, owner)])
            } else {
                None
            }),
    {
        match self.instances.get(&(strategy_id, owner)) {
            Some(a) => Some(*a),
            None => None,
        }
    }

    /// Update allocation instance
    pub fn update_allocation_instance(&mut self, strategy_id: u64, owner: Address, allocation: AllocationInstance)
        requires
            old(self).wf(),
        ensures
            final(self).wf(),
            final(self).allocations() == old(self).allocations().insert((strategy_id, owner), allocation),
            final(self).strategies() == old(self).strategies(),
            final(self).next_id() == old(self).next_id(),
            final(self).performance() == old(self).performance(),
            final(self).history() == old(self).history(),
            final(self).entry_counters() == old(self).entry_counters(),
    {
        self.instances.insert((strategy_id, owner), allocation);
    }
}

} // verus!
