//! Tip events as the contract emits them, and filters that select among
//! them.

use vstd::prelude::*;

use crate::ledger::Address;

pub mod filters;

verus! {

/// A tip as recorded in the event stream.
#[derive(Clone, Debug)]
pub struct TipEvent {
    pub sender: Address,
    pub creator: Address,
    pub token: Address,
    pub amount: i128,
    pub timestamp: u64,
    pub tags: Vec<String>,
}

/// What an event must satisfy to be selected; a field left `None` does not
/// restrict. The kind of event is carried for the caller and not checked
/// by [`filters::matches_filter`].
#[derive(Clone, Debug)]
pub struct EventFilter {
    pub event_type: Option<String>,
    pub sender: Option<Address>,
    pub creator: Option<Address>,
    pub token: Option<Address>,
    pub min_amount: Option<i128>,
    pub max_amount: Option<i128>,
    pub start_time: Option<u64>,
    pub end_time: Option<u64>,
    pub tags: Option<Vec<String>>,
}

} // verus!
