//! Strategy execution history tracking

use vstd::prelude::*;

use super::StrategyBook;

verus! {

/// Types of history events
#[derive(Clone, Copy, PartialEq, Eq, Structural, Debug)]
pub enum HistoryEventType {
    /// Strategy allocation
    Allocation,
    /// Strategy rebalancing
    Rebalancing,
    /// Harvest/claim rewards
    Harvest,
    /// Strategy modification
    Modification,
    /// Fee collection
    FeeCollection,
}

/// Performance snapshot at time of event
#[derive(Clone, Copy, PartialEq, Eq, Structural, Debug)]
pub struct PerformanceSnapshot {
    /// Total AUM at snapshot time
    pub total_aum: i128,
    /// Current return in basis points
    pub return_bps: i32,
    /// Realized gains
    pub realized_gains: i128,
    /// Fees paid in this period
    pub period_fees: i128,
}

/// History entry for a strategy execution or rebalancing
#[derive(Clone, Debug)]
pub struct HistoryEntry {
    /// Unique entry ID
    pub entry_id: u64,
    /// Strategy identifier
    pub strategy_id: u64,
    /// Type of event
    pub event_type: HistoryEventType,
    /// Timestamp of event
    pub timestamp: u64,
    /// Amount involved in transaction
    pub amount: i128,
    /// Details about the event
    pub details: String,
    /// Performance snapshot at time of event
    pub performance_snapshot: Option<PerformanceSnapshot>,
}

#[derive(Clone, Copy, PartialEq, Eq, Structural, Debug)]
pub enum HistoryError {
    /// Strategy not found
    StrategyNotFound,
    /// History entry not found
    HistoryNotFound,
    /// Invalid history data
    InvalidHistoryData,
}

/// Strategy execution statistics
#[derive(Clone, Copy, PartialEq, Eq, Structural, Debug)]
pub struct ExecutionStatistics {
    /// Strategy identifier
    pub strategy_id: u64,
    /// Total amount allocated across all events
    pub total_amount_allocated: i128,
    /// Total fees collected
    pub total_fees_collected: i128,
    /// Number of allocation events
    pub num_allocations: u64,
    /// Number of rebalancing events
    pub num_rebalances: u64,
    /// Number of harvest events
    pub num_harvests: u64,
    /// Days strategy has been active
    pub days_active: u64,
    /// Strategy creation time
    pub created_at: u64,
    /// Last recorded activity
    pub last_activity: u64,
}

/// A copy of a history entry.
fn copy_entry(e: &HistoryEntry) -> (r: HistoryEntry)
    ensures
        r == *e,
{
    HistoryEntry {
        entry_id: e.entry_id,
        strategy_id: e.strategy_id,
        event_type: e.event_type,
        timestamp: e.timestamp,
        amount: e.amount,
        details: e.details.clone(),
        performance_snapshot: e.performance_snapshot,
    }
}

impl StrategyBook {
    /// Hands out the next entry identifier of `strategy_id` and advances its
    /// counter.
    fn take_entry_id(&mut self, strategy_id: u64) -> (r: u64)
        requires
            old(self).wf(),
            old(self).next_entry_id(strategy_id) < u64::MAX,
        ensures
            r == old(self).next_entry_id(strategy_id),
            final(self).next_entry_id(strategy_id) == r + 1,
            forall|s: u64| s != strategy_id ==> #[trigger] final(self).next_entry_id(s) == old(self).next_entry_id(s),
            final(self).history() == old(self).history(),
            final(self).strategies() == old(self).strategies(),
            final(self).next_id() == old(self).next_id(),
            final(self).allocations() == old(self).allocations(),
            final(self).performance() == old(self).performance(),
            final(self).wf(),
    {
        let id = match self.entry_counters.get(&strategy_id) {
            Some(c) => *c,
            None => 1,
        };
        self.entry_counters.insert(strategy_id, id + 1);
        id
    }

    /// Track a strategy execution event recorded at `now`; returns the entry's
    /// identifier, the strategy's next one, which no earlier entry has.
    pub fn record_history_entry(
        &mut self,
        now: u64,
        strategy_id: u64,
        event_type: HistoryEventType,
        amount: i128,
        details: String,
    ) -> (r: Result<u64, HistoryError>)
        requires
            old(self).wf(),
            old(self).next_entry_id(strategy_id) < u64::MAX,
        ensures
            final(self).wf(),
            r == Ok::<u64, HistoryError>(old(self).next_entry_id(strategy_id)),
            !old(self).history().contains_key((strategy_id, old(self).next_entry_id(strategy_id))),
            final(self).history() == old(self).history().insert(
                (strategy_id, old(self).next_entry_id(strategy_id)),
                HistoryEntry {
                    entry_id: old(self).next_entry_id(strategy_id),
                    strategy_id,
                    event_type,
                    timestamp: now,
                    amount,
                    details,
                    performance_snapshot: None,
                },
            ),
            final(self).next_entry_id(strategy_id) == old(self).next_entry_id(strategy_id) + 1,
            forall|s: u64| s != strategy_id ==> #[trigger] final(self).next_entry_id(s) == old(self).next_entry_id(s),
            final(self).strategies() == old(self).strategies(),
            final(self).next_id() == old(self).next_id(),
            final(self).allocations() == old(self).allocations(),
            final(self).performance() == old(self).performance(),
    {
        let entry_id = self.take_entry_id(strategy_id);
        let ghost mid = *self;
        let entry = HistoryEntry {
            entry_id,
            strategy_id,
            event_type,
            timestamp: now,
            amount,
            details,
            performance_snapshot: None,
        };
        self.history.insert((strategy_id, entry_id), entry);
        proof {
            assert(self.entry_counters() == mid.entry_counters());
            assert forall|t: u64| #[trigger] self.next_entry_id(t) == mid.next_entry_id(t) by {}
            assert forall|k: (u64, u64)| #[trigger] self.history@.contains_key(k) implies 1 <= k.1
                < self.next_entry_id(k.0) by {
                if k != (strategy_id, entry_id) {
                    assert(mid.history@.contains_key(k));
                }
            }
        }
        Ok(entry_id)
    }

    /// Record history entry with performance snapshot, under the strategy's
    /// next entry identifier.
    pub fn record_history_with_performance(
        &mut self,
        now: u64,
        strategy_id: u64,
        event_type: HistoryEventType,
        amount: i128,
        details: String,
        performance: PerformanceSnapshot,
    ) -> (r: Result<u64, HistoryError>)
        requires
            old(self).wf(),
            old(self).next_entry_id(strategy_id) < u64::MAX,
        ensures
            final(self).wf(),
            r == Ok::<u64, HistoryError>(old(self).next_entry_id(strategy_id)),
            !old(self).history().contains_key((strategy_id, old(self).next_entry_id(strategy_id))),
            final(self).history() == old(self).history().insert(
                (strategy_id, old(self).next_entry_id(strategy_id)),
                HistoryEntry {
                    entry_id: old(self).next_entry_id(strategy_id),
                    strategy_id,
                    event_type,
                    timestamp: now,
                    amount,
                    details,
                    performance_snapshot: Some(performance),
                },
            ),
            final(self).next_entry_id(strategy_id) == old(self).next_entry_id(strategy_id) + 1,
            forall|s: u64| s != strategy_id ==> #[trigger] final(self).next_entry_id(s) == old(self).next_entry_id(s),
            final(self).strategies() == old(self).strategies(),
            final(self).next_id() == old(self).next_id(),
            final(self).allocations() == old(self).allocations(),
            final(self).performance() == old(self).performance(),
    {
        let entry_id = self.take_entry_id(strategy_id);
        let ghost mid = *self;
        let entry = HistoryEntry {
            entry_id,
            strategy_id,
            event_type,
            timestamp: now,
            amount,
            details,
            performance_snapshot: Some(performance),
        };
        self.history.insert((strategy_id, entry_id), entry);
        proof {
            assert(self.entry_counters() == mid.entry_counters());
            assert forall|t: u64| #[trigger] self.next_entry_id(t) == mid.next_entry_id(t) by {}
            assert forall|k: (u64, u64)| #[trigger] self.history@.contains_key(k) implies 1 <= k.1
                < self.next_entry_id(k.0) by {
                if k != (strategy_id, entry_id) {
                    assert(mid.history@.contains_key(k));
                }
            }
        }
        Ok(entry_id)
    }

    /// Get a history entry
    pub fn get_history_entry(&self, strategy_id: u64, entry_id: u64) -> (r: Result<HistoryEntry, HistoryError>)
        requires
            self.wf(),
        ensures
            r matches Ok(e) ==> self.history().contains_key((strategy_id, entry_id)) && e == self.history()[(
            strategy_id, entry_id)],
            r is Err ==> !self.history().contains_key((strategy_id, entry_id)) && r == Err::<
                HistoryEntry,
                HistoryError,
            >(HistoryError::HistoryNotFound),
    {
        match self.history.get(&(strategy_id, entry_id)) {
            Some(e) => Ok(copy_entry(e)),
            None => Err(HistoryError::HistoryNotFound),
        }
    }

    /// Get strategy execution statistics at `now`.
    pub fn get_execution_statistics(&self, now: u64, strategy_id: u64, event_types: &Vec<HistoryEventType>) -> (r:
        Result<ExecutionStatistics, HistoryError>)
        requires
            self.wf(),
            self.strategies().contains_key(strategy_id) ==> now >= self.strategies()[strategy_id].created_at,
        ensures
            r == (if self.strategies().contains_key(strategy_id) {
                let created_at = self.strategies()[strategy_id].created_at;
                Ok::<ExecutionStatistics, HistoryError>(
                    ExecutionStatistics {
                        strategy_id,
                        total_amount_allocated: 0,
                        total_fees_collected: 0,
                        num_allocations: 0,
                        num_rebalances: 0,
                        num_harvests: 0,
                        days_active: ((now - created_at) / 86400) as u64,
                        created_at,
                        last_activity: now,
                    },
                )
            } else {
                Err(HistoryError::StrategyNotFound)
            }),
    {
        let strategy = match self.configs.get(&strategy_id) {
            Some(s) => s,
            None => {
                return Err(HistoryError::StrategyNotFound);
            },
        };
        let created_at = strategy.created_at;
        Ok(
            ExecutionStatistics {
                strategy_id,
                total_amount_allocated: 0,
                total_fees_collected: 0,
                num_allocations: 0,
                num_rebalances: 0,
                num_harvests: 0,
                days_active: (now - created_at) / 86400,
                created_at,
                last_activity: now,
            },
        )
    }

    /// Get total fees collected for a strategy
    pub fn get_total_fees(&self, strategy_id: u64) -> (r: Result<i128, HistoryError>)
        requires
            self.wf(),
        ensures
            r == (if self.strategies().contains_key(strategy_id) {
                Ok::<i128, HistoryError>(0)
            } else {
                Err(HistoryError::StrategyNotFound)
            }),
    {
        match self.configs.get(&strategy_id) {
            Some(_) => Ok(0),
            None => Err(HistoryError::StrategyNotFound),
        }
    }

    /// Get audit trail for a strategy
    pub fn get_audit_trail(&self, strategy_id: u64, max_entries: u32) -> (r: Result<Vec<HistoryEntry>, HistoryError>)
        requires
            self.wf(),
        ensures
            self.strategies().contains_key(strategy_id) ==> (r matches Ok(v) && v@.len() == 0),
            !self.strategies().contains_key(strategy_id) ==> (r matches Err(e) && e == HistoryError::StrategyNotFound),
    {
        match self.configs.get(&strategy_id) {
            Some(_) => Ok(Vec::new()),
            None => Err(HistoryError::StrategyNotFound),
        }
    }
}

} // verus!
