use vstd::prelude::*;
use crate::state::AccountId;

verus! {

/// Emitted once when the protocol singleton is initialized.
#[derive(Clone, Copy, Debug, PartialEq, Eq, Structural)]
pub struct ProtocolInitialized {
    pub authority: AccountId,
    pub timestamp: i64,
}

/// Emitted on each successful market creation.
#[derive(Debug)]
pub struct MarketCreated {
    pub market_id: String,
    pub description: String,
    pub end_timestamp: i64,
    pub authority: AccountId,
    pub timestamp: i64,
}

/// Emitted on each successful stake placement.
#[derive(Debug)]
pub struct PredictionPlaced {
    pub market_id: String,
    pub user: AccountId,
    pub amount: u64,
    pub prediction: bool,
    pub timestamp: i64,
}

/// Emitted on each successful resolution, carrying the frozen pools.
#[derive(Debug)]
pub struct MarketResolved {
    pub market_id: String,
    pub outcome: bool,
    pub total_yes_amount: u64,
    pub total_no_amount: u64,
    pub timestamp: i64,
}

/// Emitted on each successful claim.
#[derive(Debug)]
pub struct WinningsClaimed {
    pub market_id: String,
    pub user: AccountId,
    pub amount: u64,
    pub timestamp: i64,
}

} // verus!
