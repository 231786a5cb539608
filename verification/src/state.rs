use vstd::prelude::*;
use vstd::utf8::encode_utf8;

verus! {

/// The byte length allowed for a market identifier.
pub const MAX_MARKET_ID_LEN: usize = 50;

/// The byte length allowed for a market description.
pub const MAX_DESCRIPTION_LEN: usize = 500;

/// An opaque identity handle. The identity/authorization collaborator
/// proves that a caller controls the identity it presents; the core only
/// compares stored identities against verified caller identities.
#[derive(Clone, Copy, Debug, PartialEq, Eq, Structural)]
pub struct AccountId(pub u64);

/// The protocol singleton: created once at initialization, mutated only
/// by market creation.
#[derive(Clone, Copy, Debug, PartialEq, Eq, Structural)]
pub struct ProtocolState {
    /// The identity permitted to administer the protocol.
    pub authority: AccountId,
    /// Monotonically increasing count of markets ever created.
    pub total_markets: u64,
    /// Gate checked at market creation.
    pub is_paused: bool,
}

/// One binary-outcome market: metadata, pooled totals and resolution state.
#[derive(Debug)]
pub struct PredictionMarket {
    /// Unique key, at most [`MAX_MARKET_ID_LEN`] bytes, immutable.
    pub id: String,
    /// At most [`MAX_DESCRIPTION_LEN`] bytes, immutable.
    pub description: String,
    /// Stake-acceptance deadline (exclusive upper bound on stake time).
    pub end_timestamp: i64,
    /// Set at creation.
    pub created_timestamp: i64,
    /// Unset until resolution.
    pub resolved_timestamp: Option<i64>,
    /// Minimum stake, always nonzero.
    pub min_bet_amount: u64,
    /// False until resolution, then permanently true.
    pub is_resolved: bool,
    /// Unset until resolution, then immutable.
    pub outcome: Option<bool>,
    /// Pooled stakes on the YES side, frozen at resolution.
    pub total_yes_amount: u64,
    /// Pooled stakes on the NO side, frozen at resolution.
    pub total_no_amount: u64,
    /// Count of distinct stake records created for this market.
    pub total_participants: u64,
    /// The identity permitted to resolve this market.
    pub authority: AccountId,
}

impl PredictionMarket {
    /// Well-formedness: established at creation and preserved by every
    /// transition.
    pub open spec fn wf(self) -> bool {
        &&& self.min_bet_amount >= 1
        &&& (self.is_resolved <==> self.outcome is Some)
        &&& (self.is_resolved <==> self.resolved_timestamp is Some)
        &&& encode_utf8(self.id@).len() <= MAX_MARKET_ID_LEN
        &&& encode_utf8(self.description@).len() <= MAX_DESCRIPTION_LEN
    }

    /// The pooled amount staked on side `outcome`.
    pub open spec fn side_pool(self, outcome: bool) -> u64 {
        if outcome {
            self.total_yes_amount
        } else {
            self.total_no_amount
        }
    }

    /// Both pools together, in the unbounded domain.
    pub open spec fn total_pool(self) -> int {
        self.total_yes_amount + self.total_no_amount
    }
}

/// One participant's stake in one market: at most one such record exists
/// per (market, participant) pair.
#[derive(Debug)]
pub struct UserPrediction {
    /// The owning market's identifier: a plain back-reference key, never
    /// a handle.
    pub market: String,
    /// The staking participant.
    pub user: AccountId,
    /// Stake size; at least the market's minimum at stake time.
    pub amount: u64,
    /// Chosen side: true = YES, false = NO.
    pub prediction: bool,
    /// Stake time.
    pub timestamp: i64,
    /// False until claim, then permanently true.
    pub claimed: bool,
    /// Zero until claim; set exactly once.
    pub winnings: u64,
}

impl UserPrediction {
    /// Well-formedness: a record only ever comes from a successful stake,
    /// whose amount met a nonzero minimum.
    pub open spec fn wf(self) -> bool {
        self.amount >= 1
    }
}

} // verus!
