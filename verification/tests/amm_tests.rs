use tipjar::amm::swap::calculate_output;
use tipjar::amm::{Amm, AmmError, DEFAULT_FEE_BPS};
use tipjar::ledger::{Address, Transfer};
use tipjar::math::isqrt;

const A: Address = Address(10);
const B: Address = Address(11);
const C: Address = Address(12);
const PROVIDER: Address = Address(100);
const TRADER: Address = Address(101);

/// A pool of A and B holding 1000 and 4000, with 2000 shares for the provider.
fn funded() -> (Amm, u64) {
    let mut amm = Amm::new();
    let id = amm.create_pool(A, B, None).unwrap();
    let (shares, transfers) = amm.add_liquidity(id, PROVIDER, 1000, 4000).unwrap();
    assert_eq!(shares, 2000);
    assert_eq!(
        transfers,
        vec![
            Transfer::Deposit { token: A, from: PROVIDER, amount: 1000 },
            Transfer::Deposit { token: B, from: PROVIDER, amount: 4000 },
        ]
    );
    (amm, id)
}

#[test]
fn create_pool_ids_start_at_one_and_pairs_are_unique() {
    let mut amm = Amm::new();
    assert_eq!(amm.create_pool(A, B, None).unwrap(), 1);
    assert_eq!(amm.create_pool(A, C, Some(100)).unwrap(), 2);
    assert_eq!(amm.create_pool(A, B, Some(5)).unwrap_err(), AmmError::PoolAlreadyExists);
    assert_eq!(amm.get_pool_id(A, B), Some(1));
    assert_eq!(amm.get_pool_fee(1).unwrap(), DEFAULT_FEE_BPS);
    assert_eq!(amm.get_pool_fee(2).unwrap(), 100);
    assert_eq!(amm.get_pool_fee(3).unwrap_err(), AmmError::PoolNotFound);
    assert!(amm.get_pool(9).is_none());
}

#[test]
fn constant_product_output_values() {
    // 100 in with a 0.3% fee: 99 after the fee; 99 * 4000 / 1099 = 360.
    assert_eq!(calculate_output(100, 1000, 4000, 30), 360);
    assert_eq!(calculate_output(0, 1000, 4000, 30), 0);
    assert_eq!(calculate_output(100, 0, 4000, 30), 0);
    assert_eq!(calculate_output(1000, 1000, 1000, 0), 500);
}

#[test]
fn swap_moves_reserves_and_keeps_the_product() {
    let (mut amm, id) = funded();
    assert_eq!(amm.get_amount_out(id, A, 100).unwrap(), 360);
    let (result, transfers) = amm.swap(id, TRADER, A, 100, 300).unwrap();
    assert_eq!(result.amount_out, 360);
    assert_eq!(result.fee_amount, 0);
    assert_eq!(result.new_reserve_a, 1100);
    assert_eq!(result.new_reserve_b, 3640);
    assert_eq!(
        transfers,
        vec![
            Transfer::Deposit { token: A, from: TRADER, amount: 100 },
            Transfer::Payout { token: B, to: TRADER, amount: 360 },
        ]
    );
    assert_eq!(amm.get_reserves(id).unwrap(), (1100, 3640));
    assert!(1100 * 3640 >= 1000 * 4000);
}

#[test]
fn swap_refusals() {
    let (mut amm, id) = funded();
    assert_eq!(amm.swap(id, TRADER, A, 100, 361).unwrap_err(), AmmError::SlippageTooHigh);
    assert_eq!(amm.swap(id, TRADER, C, 100, 0).unwrap_err(), AmmError::TokenNotInPool);
    assert_eq!(amm.swap(id, TRADER, A, 0, 0).unwrap_err(), AmmError::InvalidAmount);
    assert_eq!(amm.swap(7, TRADER, A, 10, 0).unwrap_err(), AmmError::PoolNotFound);
    assert_eq!(amm.get_reserves(id).unwrap(), (1000, 4000));
}

#[test]
fn liquidity_in_and_out() {
    let (mut amm, id) = funded();
    // A second deposit in proportion mints shares in proportion.
    let (shares, _) = amm.add_liquidity(id, TRADER, 500, 2000).unwrap();
    assert_eq!(shares, 1000);
    assert_eq!(amm.get_total_shares(id).unwrap(), 3000);
    assert_eq!(amm.get_user_shares(id, TRADER), 1000);
    let ((a, b), transfers) = amm.remove_liquidity(id, TRADER, 1000).unwrap();
    assert_eq!((a, b), (500, 2000));
    assert_eq!(
        transfers,
        vec![
            Transfer::Payout { token: A, to: TRADER, amount: 500 },
            Transfer::Payout { token: B, to: TRADER, amount: 2000 },
        ]
    );
    assert_eq!(amm.get_user_shares(id, TRADER), 0);
    assert_eq!(amm.remove_liquidity(id, TRADER, 1).unwrap_err(), AmmError::InsufficientShares);
    assert_eq!(amm.remove_liquidity(id, TRADER, 0).unwrap_err(), AmmError::InvalidAmount);
    assert_eq!(amm.add_liquidity(id, TRADER, 0, 5).unwrap_err(), AmmError::InvalidAmount);
}

#[test]
fn pricing_values() {
    let (amm, id) = funded();
    assert_eq!(amm.get_price(id, A).unwrap(), 40000);
    assert_eq!(amm.get_price(id, B).unwrap(), 2500);
    assert_eq!(amm.get_mid_price(id, A).unwrap(), 40000);
    assert_eq!(amm.get_price(id, C).unwrap_err(), AmmError::TokenNotInPool);
    assert_eq!(amm.get_liquidity_value(id).unwrap(), (1000, 4000));
    assert_eq!(amm.get_utilization_rate(id).unwrap(), 25000);
    assert_eq!(amm.calculate_optimal_output(id, A, 100).unwrap(), 360);
    // 1000 * 360 * 10000 / (3640 * 9970), rounded down, plus one.
    assert_eq!(amm.calculate_optimal_input(id, A, 360).unwrap(), 100);
    assert_eq!(amm.calculate_optimal_input(id, A, 4000).unwrap(), 0);
}

#[test]
fn empty_pool_prices_are_zero() {
    let mut amm = Amm::new();
    let id = amm.create_pool(A, B, None).unwrap();
    assert_eq!(amm.get_price(id, A).unwrap(), 0);
    assert_eq!(amm.get_mid_price(id, A).unwrap(), 0);
    assert_eq!(amm.get_utilization_rate(id).unwrap(), 0);
}

#[test]
fn integer_square_roots() {
    assert_eq!(isqrt(0), 0);
    assert_eq!(isqrt(1), 1);
    assert_eq!(isqrt(15), 3);
    assert_eq!(isqrt(16), 4);
    assert_eq!(isqrt(4_000_000), 2000);
    assert_eq!(isqrt(i128::MAX - 1), 13_043_817_825_332_782_212);
}

#[test]
fn pools_by_pair_either_way_and_direct_updates() {
    let (mut amm, id) = funded();
    assert_eq!(amm.get_pool_id(B, A), Some(id));
    let p = amm.get_pool_by_tokens(B, A).unwrap();
    assert_eq!((p.reserve_a, p.reserve_b, p.total_shares), (1000, 4000, 2000));
    assert!(amm.get_pool_by_tokens(A, C).is_none());
    let mut q = p;
    q.reserve_a = 5;
    amm.update_pool(id, q);
    assert_eq!(amm.get_reserves(id).unwrap(), (5, 4000));
    amm.update_user_shares(id, TRADER, 42);
    assert_eq!(amm.get_user_shares(id, TRADER), 42);
}

#[test]
fn price_impact_in_basis_points() {
    let (amm, id) = funded();
    // Price 40000 before; after 100 in and 360 out, 3640 * 10000 / 1100 = 33090.
    // Impact (40000 - 33090) * 10000 / 40000 = 1727.
    assert_eq!(amm.get_price_impact(id, A, 100).unwrap(), 1727);
    assert_eq!(amm.get_price_impact(id, C, 100).unwrap_err(), AmmError::TokenNotInPool);
}

#[test]
fn output_grows_with_input_and_falls_with_fee() {
    let mut prev = 0;
    for a in [1, 10, 100, 1_000, 10_000] {
        let out = calculate_output(a, 1000, 4000, 30);
        assert!(out >= prev);
        prev = out;
    }
    assert!(calculate_output(500, 1000, 4000, 0) >= calculate_output(500, 1000, 4000, 30));
    assert!(calculate_output(500, 1000, 4000, 30) >= calculate_output(500, 1000, 4000, 10_000));
    assert_eq!(calculate_output(500, 1000, 4000, 10_000), 0);
}
