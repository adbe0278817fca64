//! Network configuration: the Stellar networks the tools can target and
//! the contract address deployed on each.

pub mod contracts;
pub mod networks;
