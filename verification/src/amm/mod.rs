//! Automated market maker for tip tokens: liquidity pools of two tokens,
//! swaps by the constant-product formula, and price queries.

pub mod pool;
pub mod pricing;
pub mod swap;

use vstd::prelude::*;

use crate::ledger::Address;
use crate::table::Table;

verus! {

/// Liquidity pool structure
#[derive(Clone, Copy, PartialEq, Eq, Structural, Debug)]
pub struct LiquidityPool {
    pub token_a: Address,
    pub token_b: Address,
    pub reserve_a: i128,
    pub reserve_b: i128,
    pub total_shares: i128,
    /// Fee in basis points (e.g., 30 = 0.3%)
    pub fee_bps: u32,
}

/// Liquidity provider share
#[derive(Clone, Copy, PartialEq, Eq, Structural, Debug)]
pub struct LiquidityShare {
    pub provider: Address,
    pub shares: i128,
    pub pool_id: u64,
}

/// Swap result
#[derive(Clone, Copy, PartialEq, Eq, Structural, Debug)]
pub struct SwapResult {
    pub amount_out: i128,
    pub fee_amount: i128,
    pub new_reserve_a: i128,
    pub new_reserve_b: i128,
}

/// Pool creation parameters
#[derive(Clone, Copy, PartialEq, Eq, Structural, Debug)]
pub struct PoolParams {
    pub token_a: Address,
    pub token_b: Address,
    pub initial_liquidity_a: i128,
    pub initial_liquidity_b: i128,
    pub fee_bps: u32,
}

/// Default fee: 0.3% (30 basis points)
pub const DEFAULT_FEE_BPS: u32 = 30;

/// Why an operation on the pools was refused.
#[derive(Clone, Copy, PartialEq, Eq, Structural, Debug)]
pub enum AmmError {
    /// A pool already exists for this token pair.
    PoolAlreadyExists,
    /// No pool has this identifier.
    PoolNotFound,
    /// An amount or a number of shares is not positive.
    InvalidAmount,
    /// The deposit would mint no shares.
    InvalidShareAmount,
    /// The provider holds fewer shares than asked for.
    InsufficientShares,
    /// The withdrawal would pay nothing of one of the tokens.
    InvalidWithdrawal,
    /// The token is neither of the pool's two tokens.
    TokenNotInPool,
    /// The swap pays out less than the least the sender accepts.
    SlippageTooHigh,
}

/// The records of the market maker: pools by identifier, the pool of each
/// token pair (both ways round), and each provider's shares in each pool.
pub struct Amm {
    pools: Table<u64, LiquidityPool>,
    pool_counter: u64,
    pool_by_tokens: Table<(Address, Address), u64>,
    liquidity_shares: Table<(u64, Address), i128>,
}

impl Amm {
    pub closed spec fn wf(&self) -> bool {
        &&& self.pools.wf()
        &&& self.pool_by_tokens.wf()
        &&& self.liquidity_shares.wf()
    }

    /// The pools by identifier.
    pub closed spec fn pools(&self) -> Map<u64, LiquidityPool> {
        self.pools@
    }

    /// The identifier of the pool of each token pair.
    pub closed spec fn pair_index(&self) -> Map<(Address, Address), u64> {
        self.pool_by_tokens@
    }

    /// The shares each provider holds in each pool.
    pub closed spec fn share_map(&self) -> Map<(u64, Address), i128> {
        self.liquidity_shares@
    }

    /// The identifier of the most recently created pool (zero before the first).
    pub closed spec fn counter(&self) -> u64 {
        self.pool_counter
    }

    /// The shares of `user` in pool `pool_id`, zero where none are recorded.
    pub open spec fn shares_of(&self, pool_id: u64, user: Address) -> i128 {
        if self.share_map().contains_key((pool_id, user)) {
            self.share_map()[(pool_id, user)]
        } else {
            0
        }
    }

    /// No pools, no pairs, no shares.
    pub fn new() -> (s: Self)
        ensures
            s.wf(),
            s.pools() == Map::<u64, LiquidityPool>::empty(),
            s.pair_index() == Map::<(Address, Address), u64>::empty(),
            s.share_map() == Map::<(u64, Address), i128>::empty(),
            s.counter() == 0,
    {
        Amm {
            pools: Table::new(),
            pool_counter: 0,
            pool_by_tokens: Table::new(),
            liquidity_shares: Table::new(),
        }
    }

    /// Create a new liquidity pool for `token_a` and `token_b`; its identifier
    /// is one more than the last one given out.
    pub fn create_pool(&mut self, token_a: Address, token_b: Address, fee_bps: Option<u32>) -> (r: Result<
        u64,
        AmmError,
    >)
        requires
            old(self).wf(),
            old(self).counter() < u64::MAX,
        ensures
            final(self).wf(),
            old(self).pair_index().contains_key((token_a, token_b)) ==> r == Err::<u64, AmmError>(
                AmmError::PoolAlreadyExists,
            ) && *final(self) == *old(self),
            !old(self).pair_index().contains_key((token_a, token_b)) ==> {
                let id = (old(self).counter() + 1) as u64;
                let fee = match fee_bps {
                    Some(f) => f,
                    None => DEFAULT_FEE_BPS,
                };
                &&& r == Ok::<u64, AmmError>(id)
                &&& final(self).counter() == id
                &&& final(self).pools() == old(self).pools().insert(
                    id,
                    LiquidityPool {
                        token_a,
                        token_b,
                        reserve_a: 0,
                        reserve_b: 0,
                        total_shares: 0,
                        fee_bps: fee,
                    },
                )
                &&& final(self).pair_index() == old(self).pair_index().insert((token_a, token_b), id).insert(
                    (token_b, token_a),
                    id,
                )
                &&& final(self).share_map() == old(self).share_map()
            },
    {
        if self.pool_by_tokens.contains(&(token_a, token_b)) {
            return Err(AmmError::PoolAlreadyExists);
        }
        let new_id = self.pool_counter + 1;
        let fee = match fee_bps {
            Some(f) => f,
            None => DEFAULT_FEE_BPS,
        };
        let pool = LiquidityPool {
            token_a,
            token_b,
            reserve_a: 0,
            reserve_b: 0,
            total_shares: 0,
            fee_bps: fee,
        };
        self.pools.insert(new_id, pool);
        self.pool_counter = new_id;
        self.pool_by_tokens.insert((token_a, token_b), new_id);
        self.pool_by_tokens.insert((token_b, token_a), new_id);
        Ok(new_id)
    }

    /// Get pool ID for token pair
    pub fn get_pool_id(&self, token_a: Address, token_b: Address) -> (r: Option<u64>)
        requires
            self.wf(),
        ensures
            r == (if self.pair_index().contains_key((token_a, token_b)) {
                Some(self.pair_index()[(token_a, token_b)])
            } else {
                None
            }),
    {
        match self.pool_by_tokens.get(&(token_a, token_b)) {
            Some(id) => Some(*id),
            None => None,
        }
    }

    /// Get pool by ID
    pub fn get_pool(&self, pool_id: u64) -> (r: Option<LiquidityPool>)
        requires
            self.wf(),
        ensures
            r == (if self.pools().contains_key(pool_id) {
                Some(self.pools()[pool_id])
            } else {
                None
            }),
    {
        match self.pools.get(&pool_id) {
            Some(p) => Some(*p),
            None => None,
        }
    }

    /// Get pool by token pair
    pub fn get_pool_by_tokens(&self, token_a: Address, token_b: Address) -> (r: Option<LiquidityPool>)
        requires
            self.wf(),
        ensures
            r == (if self.pair_index().contains_key((token_a, token_b))
                && self.pools().contains_key(self.pair_index()[(token_a, token_b)]) {
                Some(self.pools()[self.pair_index()[(token_a, token_b)]])
            } else {
                None
            }),
    {
        let pool_id = match self.get_pool_id(token_a, token_b) {
            Some(id) => id,
            None => {
                return None;
            },
        };
        self.get_pool(pool_id)
    }

    /// Update pool state
    pub fn update_pool(&mut self, pool_id: u64, pool: LiquidityPool)
        requires
            old(self).wf(),
        ensures
            final(self).wf(),
            final(self).pools() == old(self).pools().insert(pool_id, pool),
            final(self).pair_index() == old(self).pair_index(),
            final(self).share_map() == old(self).share_map(),
            final(self).counter() == old(self).counter(),
    {
        self.pools.insert(pool_id, pool);
    }

    /// Get user's liquidity shares
    pub fn get_user_shares(&self, pool_id: u64, user: Address) -> (r: i128)
        requires
            self.wf(),
        ensures
            r == self.shares_of(pool_id, user),
    {
        match self.liquidity_shares.get(&(pool_id, user)) {
            Some(s) => *s,
            None => 0,
        }
    }

    /// Update user's liquidity shares
    pub fn update_user_shares(&mut self, pool_id: u64, user: Address, shares: i128)
        requires
            old(self).wf(),
        ensures
            final(self).wf(),
            final(self).share_map() == old(self).share_map().insert((pool_id, user), shares),
            final(self).pools() == old(self).pools(),
            final(self).pair_index() == old(self).pair_index(),
            final(self).counter() == old(self).counter(),
    {
        self.liquidity_shares.insert((pool_id, user), shares);
    }
}

} // verus!
