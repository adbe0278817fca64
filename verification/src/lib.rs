//! The TipJar library: tipping, roles, liquidity pools, strategies, funding
//! rounds, reputation, identity records and network configuration.
pub mod ledger;
pub mod math;
pub mod table;
pub mod amm;
pub mod strategy;
pub mod contract;
pub mod retroactive_funding;
pub mod reputation_tokens;
pub mod composable_nft;
pub mod did;
pub mod verifiable_credentials;
pub mod events;
pub mod text;
pub mod config;
pub mod gas;
