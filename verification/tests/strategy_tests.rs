use tipjar::ledger::Address;
use tipjar::strategy::execution::{calculate_distribution, ExecutionError};
use tipjar::strategy::history::{HistoryError, HistoryEventType, PerformanceSnapshot};
use tipjar::strategy::performance::{calculate_performance, calculate_risk_adjusted_return, PerformanceError};
use tipjar::strategy::rebalancing::{validate_allocations, RebalancingError};
use tipjar::strategy::{AllocationTarget, StrategyBook, StrategyType};

fn target(id: u64, bps: u32, min: u32, max: u32) -> AllocationTarget {
    AllocationTarget { target_id: Address(id), allocation_bps: bps, min_allocation_bps: min, max_allocation_bps: max }
}

fn book() -> StrategyBook {
    let mut b = StrategyBook::new();
    b.init_strategy_module();
    b
}

#[test]
fn test_create_strategy() {
    let mut b = book();
    let owner = Address(100);

    let allocations = vec![target(1, 10000, 5000, 10000)]; // 100%

    let strategy_id = b.create_strategy(
        0,
        StrategyType::Conservative,
        owner,
        allocations,
        100,   // rebalance threshold: 1%
        86400, // rebalance frequency: 1 day
        200,   // performance fee: 2%
        100,   // management fee: 1%
    );

    assert_eq!(strategy_id, 1);

    // Verify strategy was created
    let strategy = b.get_strategy(strategy_id).unwrap();
    assert_eq!(strategy.id, strategy_id);
    assert_eq!(strategy.owner, owner);
    assert_eq!(strategy.total_aum, 0);
    assert!(strategy.active);
}

#[test]
fn test_strategy_execution() {
    let mut b = book();
    let owner = Address(100);
    let allocations = vec![target(1, 10000, 5000, 10000)];

    let strategy_id = b.create_strategy(0, StrategyType::Balanced, owner, allocations, 100, 86400, 200, 100);

    // Execute strategy with 1000 units
    let result = b.execute_strategy(0, strategy_id, owner, 1000);

    assert!(result.is_ok());
    let distribution = result.unwrap();
    assert_eq!(distribution.len(), 1);
    assert_eq!(distribution[0], 1000);
}

#[test]
fn test_calculate_distribution() {
    let mut b = book();
    let owner = Address(100);
    let allocations = vec![
        target(1, 6000, 5000, 7000), // 60%
        target(2, 4000, 3000, 5000), // 40%
    ];

    let strategy_id = b.create_strategy(0, StrategyType::Balanced, owner, allocations, 100, 86400, 200, 100);

    let strategy = b.get_strategy(strategy_id).unwrap();

    // Calculate distribution for 1000 units
    let result = calculate_distribution(&strategy, 1000);

    assert!(result.is_ok());
    let distribution = result.unwrap();
    assert_eq!(distribution.len(), 2);
    assert_eq!(distribution[0], 600); // 60% of 1000
    assert_eq!(distribution[1], 400); // 40% of 1000
}

#[test]
fn test_allocation_exceeds_cap() {
    let mut b = book();
    let owner = Address(100);
    let allocations = vec![
        target(1, 6000, 5000, 7000),
        target(2, 5000, 4000, 6000), // Total 11000 > 10000
    ];

    let strategy_id = b.create_strategy(0, StrategyType::Balanced, owner, allocations, 100, 86400, 200, 100);

    let strategy = b.get_strategy(strategy_id).unwrap();

    // Should fail because allocations exceed 100%
    let result = calculate_distribution(&strategy, 1000);
    assert!(matches!(result, Err(ExecutionError::AllocationExceedsCap)));
}

#[test]
fn test_strategy_types() {
    // Verify all strategy types have unique values
    let conservative = StrategyType::Conservative as u32;
    let balanced = StrategyType::Balanced as u32;
    let aggressive = StrategyType::Aggressive as u32;
    let index = StrategyType::IndexTracking as u32;
    let lp = StrategyType::LiquidityProviding as u32;
    let farming = StrategyType::YieldFarming as u32;
    let staking = StrategyType::Staking as u32;
    let custom = StrategyType::Custom as u32;

    let mut values = [conservative, balanced, aggressive, index, lp, farming, staking, custom];
    values.sort();

    for i in 0..values.len() - 1 {
        assert_ne!(values[i], values[i + 1], "Strategy types must have unique values");
    }
}

#[test]
fn test_allocation_validation() {
    let allocations = vec![target(1, 10000, 5000, 10000)];

    // Validate should succeed for valid allocations
    let result = validate_allocations(&allocations);
    assert!(result.is_ok());
}

#[test]
fn test_multiple_allocations() {
    let mut b = book();
    let owner = Address(100);
    let mut allocations = Vec::new();

    // Create 5 targets with 20% allocation each
    for i in 0..5 {
        allocations.push(target(10 + i, 2000, 1500, 2500));
    }

    let strategy_id = b.create_strategy(0, StrategyType::Balanced, owner, allocations, 500, 86400, 200, 100);

    // Execute with 10000 units
    let result = b.execute_strategy(0, strategy_id, owner, 10000);

    assert!(result.is_ok());
    let distribution = result.unwrap();
    assert_eq!(distribution.len(), 5);

    // Each should get 2000 (20%)
    for i in 0..5 {
        assert_eq!(distribution[i], 2000);
    }
}

#[test]
fn test_history_entry_record() {
    let mut b = book();
    let strategy_id = 1u64;
    let details = "Test allocation".to_string();

    let result = b.record_history_entry(0, strategy_id, HistoryEventType::Allocation, 1000, details);

    assert!(result.is_ok());
    let entry_id = result.unwrap();
    assert!(entry_id > 0);

    // Retrieve the entry
    let entry_result = b.get_history_entry(strategy_id, entry_id);
    assert!(entry_result.is_ok());
}

#[test]
fn test_strategy_edge_cases() {
    let mut b = book();
    let owner = Address(100);
    let allocations = vec![target(1, 10000, 0, 10000)];

    let strategy_id = b.create_strategy(
        0,
        StrategyType::Conservative,
        owner,
        allocations,
        0, // No minimum threshold
        1, // Every second
        0, // No performance fee
        0, // No management fee
    );

    // Execute with 0 should work (edge case)
    let result = b.execute_strategy(0, strategy_id, owner, 0);
    assert!(result.is_ok());

    // Verify 0 distribution
    let distribution = result.unwrap();
    assert_eq!(distribution[0], 0);
}

#[test]
fn test_performance_with_fees() {
    let strategy_id = 2u64;
    let initial = 10000i128;
    let current = 12000i128; // 20% gain
    let rewards = 0i128;
    let created_at = 0;

    let result = calculate_performance(
        0,
        strategy_id,
        initial,
        current,
        rewards,
        500, // 5% performance fee
        100, // 1% management fee
        created_at,
    );

    assert!(result.is_ok());
    let metrics = result.unwrap();

    // Gross return: 12000 - 10000 = 2000
    assert_eq!(metrics.total_return, 2000);

    // Performance fee should be on the 2000 gain: 5% of 2000 = 100
    assert_eq!(metrics.performance_fees, 100);
}

#[test]
fn test_execution_errors() {
    // Verify error codes are unique
    assert_ne!(ExecutionError::StrategyNotFound as u32, ExecutionError::InvalidAllocation as u32);
    assert_ne!(ExecutionError::InvalidAllocation as u32, ExecutionError::AllocationExceedsCap as u32);
}

#[test]
fn test_history_event_types() {
    // Verify enum values are unique
    assert_ne!(HistoryEventType::Allocation as u32, HistoryEventType::Rebalancing as u32);
    assert_ne!(HistoryEventType::Harvest as u32, HistoryEventType::Modification as u32);
}

#[test]
fn test_history_errors() {
    // Verify error codes are unique
    assert_ne!(HistoryError::StrategyNotFound as u32, HistoryError::HistoryNotFound as u32);
    assert_ne!(HistoryError::HistoryNotFound as u32, HistoryError::InvalidHistoryData as u32);
}

#[test]
fn test_strategy_type_enum() {
    // Verify enum values are unique
    assert_ne!(StrategyType::Conservative as u32, StrategyType::Balanced as u32);
    assert_ne!(StrategyType::Balanced as u32, StrategyType::Aggressive as u32);
    assert_ne!(StrategyType::Aggressive as u32, StrategyType::IndexTracking as u32);
}

#[test]
fn test_performance_errors() {
    // Verify error codes are unique
    assert_ne!(PerformanceError::StrategyNotFound as u32, PerformanceError::PerformanceDataNotFound as u32);
    assert_ne!(PerformanceError::InvalidCalculation as u32, PerformanceError::NoPerformanceHistory as u32);
}

#[test]
fn test_rebalancing_errors() {
    // Verify error codes are unique
    assert_ne!(RebalancingError::RebalancingNotNeeded as u32, RebalancingError::InvalidTargetAllocation as u32);
    assert_ne!(RebalancingError::TooFrequentRebalancing as u32, RebalancingError::StrategyNotFound as u32);
}

// ── Further cases ────────────────────────────────────────────────────────────

#[test]
fn test_performance_calculation() {
    let strategy_id = 1u64;
    let initial_investment = 1000i128;
    let current_value = 1100i128;
    let accumulated_rewards = 50i128;
    let created_at = 0;

    let result = calculate_performance(
        0,
        strategy_id,
        initial_investment,
        current_value,
        accumulated_rewards,
        200, // performance fee: 2%
        100, // management fee: 1%
        created_at,
    );

    assert!(result.is_ok());
    let metrics = result.unwrap();
    assert_eq!(metrics.strategy_id, strategy_id);
    assert_eq!(metrics.total_return, 150); // 1100 + 50 - 1000
    assert!(metrics.return_percentage_bps > 1500); // ~15%
}

#[test]
fn performance_return_in_basis_points() {
    // 1100 + 50 - 1000 = 150 on the 950 still invested after 50 of rewards.
    let m = calculate_performance(0, 1, 1000, 1100, 50, 200, 100, 0).unwrap();
    assert_eq!(m.strategy_id, 1);
    assert_eq!(m.total_return, 150);
    assert_eq!(m.return_percentage_bps, 1578);
    // 2% of the gain; no management fee before a whole day has passed.
    assert_eq!(m.performance_fees, 3);
    assert_eq!(m.management_fees, 0);
    assert_eq!(m.net_return, 147);
    // Without rewards the base is the whole investment: 15% is 1500.
    assert_eq!(calculate_performance(0, 1, 1000, 1150, 0, 0, 0, 0).unwrap().return_percentage_bps, 1500);
    // Rewards that repaid the whole investment leave the investment as the base.
    assert_eq!(calculate_performance(0, 1, 1000, 500, 1000, 0, 0, 0).unwrap().return_percentage_bps, 5000);
}

#[test]
fn performance_management_fee_and_annualised_return() {
    // 73 days at 1% a year on 10_000: 10_000 * 100 * 73 / 3_650_000 = 20.
    let day = 86_400u64;
    let m = calculate_performance(73 * day, 3, 10_000, 11_000, 0, 0, 100, 0).unwrap();
    assert_eq!(m.days_tracked, 73);
    assert_eq!(m.management_fees, 20);
    assert_eq!(m.total_fees, 20);
    assert_eq!(m.net_return, 980);
    assert_eq!(m.return_percentage_bps, 1000);
    assert_eq!(m.annualized_return_bps, 5000);
}

#[test]
fn performance_rejects_non_positive_investment() {
    assert_eq!(
        calculate_performance(0, 1, 0, 10, 0, 0, 0, 0).unwrap_err(),
        PerformanceError::InvalidCalculation
    );
    assert_eq!(
        calculate_performance(0, 1, 10, -1, 0, 0, 0, 0).unwrap_err(),
        PerformanceError::InvalidCalculation
    );
}

#[test]
fn risk_adjusted_return_values() {
    assert_eq!(calculate_risk_adjusted_return(1000, 200, 0).unwrap(), 0);
    // 3_650 over 365 days is 10 a day; 730 bps a year is 2 a day.
    assert_eq!(calculate_risk_adjusted_return(3_650, 730, 365).unwrap(), 8);
}

#[test]
fn test_rebalancing_metrics() {
    let mut b = book();
    let owner = Address(100);
    let allocations = vec![target(1, 10000, 5000, 10000)];

    let strategy_id = b.create_strategy(
        0,
        StrategyType::Balanced,
        owner,
        allocations,
        100,   // rebalance threshold: 1%
        86400, // rebalance frequency: 1 day
        200,
        100,
    );

    let current_allocations = vec![950i128]; // 95% instead of 100%

    let result = b.get_rebalancing_metrics(0, strategy_id, &current_allocations, 1000);

    assert!(result.is_ok());
    let metrics = result.unwrap();
    assert!(metrics.should_rebalance || metrics.time_until_next_rebalance == 0);
}

#[test]
fn rebalancing_metrics_at_creation_and_after_a_period() {
    let mut b = book();
    let owner = Address(100);
    let id = b.create_strategy(0, StrategyType::Balanced, owner, vec![target(1, 10000, 5000, 10000)], 100, 86400, 200, 100);
    let current = vec![950i128]; // 95% instead of 100%
    let m = b.get_rebalancing_metrics(0, id, &current, 1000).unwrap();
    // Drift beyond the threshold makes a rebalance due before the period ends.
    assert!(m.should_rebalance);
    assert_eq!(m.time_until_next_rebalance, 86400);
    assert_eq!(m.next_rebalance, 86400);
    // Drift is measured against the current amount: 50 * 10000 / 950.
    assert_eq!(m.max_drift_bps, 526);
    assert_eq!(m.threshold_bps, 100);
    // On target and within the period: nothing is due.
    let on_target = b.get_rebalancing_metrics(0, id, &vec![1000i128], 1000).unwrap();
    assert_eq!(on_target.max_drift_bps, 0);
    assert!(!on_target.should_rebalance);
    // Once the period has passed a rebalance is due in any case.
    let later = b.get_rebalancing_metrics(86400, id, &vec![1000i128], 1000).unwrap();
    assert!(later.should_rebalance);
    assert_eq!(later.time_until_next_rebalance, 0);
}

#[test]
fn rebalancing_frequency_and_validation_errors() {
    let mut b = book();
    let owner = Address(100);
    let id = b.create_strategy(0, StrategyType::Balanced, owner, vec![target(1, 10000, 5000, 10000)], 100, 86400, 200, 100);
    assert_eq!(b.should_rebalance(10, id).unwrap_err(), RebalancingError::TooFrequentRebalancing);
    assert!(b.should_rebalance(86400, id).unwrap());
    assert_eq!(b.should_rebalance(0, 99).unwrap_err(), RebalancingError::StrategyNotFound);
    let bad = vec![target(1, 6000, 0, 10000), target(2, 5000, 0, 10000)];
    assert_eq!(validate_allocations(&bad).unwrap_err(), RebalancingError::InvalidTargetAllocation);
}

#[test]
fn execution_books_allocations_on_the_owner() {
    let mut b = book();
    let owner = Address(100);
    let id = b.create_strategy(0, StrategyType::Balanced, owner, vec![target(1, 5000, 0, 10000), target(2, 5000, 0, 10000)], 0, 1, 0, 0);
    b.execute_strategy(7, id, owner, 1000).unwrap();
    let inst = b.get_allocation_instance(id, owner).unwrap();
    assert_eq!(inst.amount, 1000);
    assert_eq!(inst.allocated_at, 7);
    assert_eq!(b.execute_strategy(7, 99, owner, 10).unwrap_err(), ExecutionError::StrategyNotFound);
}

#[test]
fn distribution_shares_never_exceed_total() {
    let mut b = book();
    let owner = Address(100);
    let id = b.create_strategy(0, StrategyType::Custom, owner, vec![target(1, 3333, 0, 10000), target(2, 3333, 0, 10000), target(3, 3334, 0, 10000)], 0, 1, 0, 0);
    let s = b.get_strategy(id).unwrap();
    let d = calculate_distribution(&s, 100).unwrap();
    assert_eq!(d, vec![33, 33, 33]);
    assert!(d.iter().sum::<i128>() <= 100);
}

#[test]
fn history_statistics_and_fees() {
    let mut b = book();
    let sid = 4u64;
    b.record_history_entry(1, sid, HistoryEventType::Allocation, 500, "a".to_string()).unwrap();
    b.record_history_entry(2, sid, HistoryEventType::FeeCollection, 30, "f".to_string()).unwrap();
    let e = b.get_history_entry(sid, 1).unwrap();
    assert_eq!(e.amount, 500);
    assert_eq!(e.event_type, HistoryEventType::Allocation);
    assert_eq!(b.get_history_entry(sid, 2).unwrap().event_type, HistoryEventType::FeeCollection);
    assert_eq!(b.get_history_entry(sid, 12345).unwrap_err(), HistoryError::HistoryNotFound);
}

#[test]
fn no_performance_fee_on_a_loss() {
    // 900 back on 1000 invested: a loss of 100, so no performance fee.
    let m = calculate_performance(0, 5, 1000, 900, 0, 2000, 0, 0).unwrap();
    assert_eq!(m.total_return, -100);
    assert_eq!(m.return_percentage_bps, -1000);
    assert_eq!(m.performance_fees, 0);
    assert_eq!(m.net_return, -100);
}

#[test]
fn rebalancing_adjustments_beyond_threshold() {
    let mut b = book();
    let owner = Address(100);
    let id = b.create_strategy(
        0,
        StrategyType::Balanced,
        owner,
        vec![target(1, 6000, 0, 10000), target(2, 4000, 0, 10000)],
        100,
        86400,
        0,
        0,
    );
    // Targets 600 and 400; both drift 20% from 500.
    assert_eq!(b.calculate_rebalancing(id, &vec![500, 500], 1000).unwrap(), vec![100, -100]);
    // Within the 1% threshold: nothing to move.
    assert_eq!(b.calculate_rebalancing(id, &vec![600, 401], 1000).unwrap(), vec![0, 0]);
    // An empty position always moves; only the positions given are looked at.
    assert_eq!(b.calculate_rebalancing(id, &vec![0], 1000).unwrap(), vec![600]);
    assert_eq!(b.calculate_rebalancing(id, &vec![500], 0).unwrap_err(), RebalancingError::CalculationFailed);
    assert_eq!(b.calculate_rebalancing(99, &vec![500], 10).unwrap_err(), RebalancingError::StrategyNotFound);
}

#[test]
fn execute_rebalancing_records_the_time() {
    let mut b = book();
    let owner = Address(100);
    let id = b.create_strategy(0, StrategyType::Balanced, owner, vec![target(1, 10000, 0, 10000)], 100, 50, 0, 0);
    b.execute_rebalancing(500, id).unwrap();
    assert_eq!(b.get_strategy(id).unwrap().last_rebalance, 500);
    assert_eq!(b.get_strategy_or_panic(id).last_rebalance, 500);
    assert_eq!(b.should_rebalance(520, id).unwrap_err(), RebalancingError::TooFrequentRebalancing);
    assert!(b.should_rebalance(550, id).unwrap());
    assert_eq!(b.execute_rebalancing(500, 99).unwrap_err(), RebalancingError::StrategyNotFound);
}

#[test]
fn update_strategy_replaces_the_record() {
    let mut b = book();
    let owner = Address(100);
    let id = b.create_strategy(0, StrategyType::Balanced, owner, vec![target(1, 10000, 0, 10000)], 100, 50, 0, 0);
    let mut s = b.get_strategy(id).unwrap();
    s.active = false;
    s.total_aum = 77;
    b.update_strategy(s);
    let t = b.get_strategy(id).unwrap();
    assert!(!t.active);
    assert_eq!(t.total_aum, 77);
    assert_eq!(b.execute_strategy(0, id, owner, 10).unwrap_err(), ExecutionError::StrategyNotActive);
}

#[test]
fn distributions_without_booking() {
    let mut b = book();
    let owner = Address(100);
    let id = b.create_strategy(0, StrategyType::Staking, owner, vec![target(1, 2500, 0, 10000)], 0, 1, 0, 0);
    assert_eq!(b.get_strategy_distribution(id, 1000).unwrap(), vec![250]);
    assert_eq!(b.get_strategy_distribution(99, 1000).unwrap_err(), ExecutionError::StrategyNotFound);
    // A staking strategy books nothing on the owner.
    b.execute_strategy(0, id, owner, 1000).unwrap();
    assert!(b.get_allocation_instance(id, owner).is_none());
    // Booking a distribution by hand on a balanced strategy.
    let bal = b.create_strategy(0, StrategyType::Balanced, owner, vec![target(1, 5000, 0, 10000), target(2, 5000, 0, 10000)], 0, 1, 0, 0);
    let s = b.get_strategy(bal).unwrap();
    b.execute_allocations(9, &s, owner, &vec![30, -5, 70]).unwrap();
    let inst = b.get_allocation_instance(bal, owner).unwrap();
    assert_eq!(inst.amount, 30);
    assert_eq!(inst.allocated_at, 9);
}

#[test]
fn performance_records_and_comparisons() {
    let mut b = book();
    let m1 = calculate_performance(0, 1, 1000, 1200, 0, 0, 0, 0).unwrap();
    let m2 = calculate_performance(0, 2, 1000, 900, 0, 0, 0, 0).unwrap();
    b.store_performance_metrics(m1.clone());
    b.store_performance_metrics(m2.clone());
    assert_eq!(b.get_performance_metrics(1).unwrap().total_return, 200);
    assert_eq!(b.get_performance_metrics(3).unwrap_err(), PerformanceError::PerformanceDataNotFound);
    let rows = b.compare_strategies(&vec![2, 3, 1]).unwrap();
    assert_eq!(rows.len(), 2);
    assert_eq!(rows[0].strategy_id, 2);
    assert_eq!(rows[0].return_percentage_bps, -1000);
    assert_eq!(rows[1].strategy_id, 1);
    assert_eq!(rows[1].net_return, 200);
}

#[test]
fn history_with_snapshots_and_statistics() {
    let mut b = book();
    let owner = Address(100);
    let id = b.create_strategy(0, StrategyType::Balanced, owner, vec![target(1, 10000, 0, 10000)], 100, 50, 0, 0);
    let snap = PerformanceSnapshot { total_aum: 1000, return_bps: 150, realized_gains: 10, period_fees: 2 };
    let entry_id = b.record_history_with_performance(3, id, HistoryEventType::Harvest, 10, "h".to_string(), snap).unwrap();
    let e = b.get_history_entry(id, entry_id).unwrap();
    assert_eq!(e.entry_id, 1);
    assert_eq!(e.timestamp, 3);
    assert_eq!(e.details, "h");
    assert_eq!(e.performance_snapshot, Some(snap));
    let stats = b.get_execution_statistics(3 * 86_400 + 5, id, &vec![HistoryEventType::Harvest]).unwrap();
    assert_eq!(stats.days_active, 3);
    assert_eq!(stats.last_activity, 3 * 86_400 + 5);
    assert_eq!(b.get_total_fees(id).unwrap(), 0);
    assert!(b.get_audit_trail(id, 10).unwrap().is_empty());
    assert_eq!(b.get_total_fees(99).unwrap_err(), HistoryError::StrategyNotFound);
    assert_eq!(b.get_audit_trail(99, 10).unwrap_err(), HistoryError::StrategyNotFound);
}

#[test]
fn history_entries_in_one_second_keep_distinct_ids() {
    let mut b = book();
    let sid = 1u64;
    let first = b.record_history_entry(0, sid, HistoryEventType::Allocation, 1000, "a".to_string()).unwrap();
    let second = b.record_history_entry(0, sid, HistoryEventType::Harvest, 20, "b".to_string()).unwrap();
    assert!(first > 0);
    assert_ne!(first, second);
    assert_eq!(b.get_history_entry(sid, first).unwrap().amount, 1000);
    assert_eq!(b.get_history_entry(sid, second).unwrap().amount, 20);
    // Another strategy counts its own entries.
    assert_eq!(b.record_history_entry(0, 2, HistoryEventType::Allocation, 5, "c".to_string()).unwrap(), 1);
}
