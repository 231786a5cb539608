use vstd::prelude::*;

verus! {

/// The typed failures surfaced by the transition engine. Every rejected
/// operation reports exactly one of these and leaves all state unchanged.
#[derive(Clone, Copy, Debug, PartialEq, Eq, Structural)]
pub enum ErrorCode {
    /// The market has already been resolved.
    MarketAlreadyResolved,
    /// The stake-acceptance deadline has passed.
    MarketExpired,
    /// The stake-acceptance deadline has not passed yet.
    MarketNotExpired,
    /// The market has not been resolved.
    MarketNotResolved,
    /// The protocol is paused.
    ProtocolPaused,
    /// The market identifier exceeds the length bound.
    MarketIdTooLong,
    /// The description exceeds the length bound.
    DescriptionTooLong,
    /// The minimum bet amount is zero.
    InvalidMinBetAmount,
    /// The deadline is not in the future.
    InvalidEndTime,
    /// The stake is below the market's minimum.
    BetAmountTooLow,
    /// The participant already holds a stake in this market.
    UserAlreadyPredicted,
    /// The winnings of this stake were already claimed.
    AlreadyClaimed,
    /// The participant staked on the losing side.
    UserLost,
    /// A checked arithmetic step would overflow (or divide by zero).
    MathOverflow,
}

impl ErrorCode {
    /// The human-readable description of the failure, for hosts that
    /// surface errors as text.
    pub fn message(&self) -> &'static str {
        match self {
            ErrorCode::MarketAlreadyResolved => "Market has already been resolved",
            ErrorCode::MarketExpired => "Market has expired",
            ErrorCode::MarketNotExpired => "Market has not expired yet",
            ErrorCode::MarketNotResolved => "Market has not been resolved",
            ErrorCode::ProtocolPaused => "Protocol is paused",
            ErrorCode::MarketIdTooLong => "Market ID is too long",
            ErrorCode::DescriptionTooLong => "Description is too long",
            ErrorCode::InvalidMinBetAmount => "Invalid minimum bet amount",
            ErrorCode::InvalidEndTime => "Invalid end time",
            ErrorCode::BetAmountTooLow => "Bet amount is too low",
            ErrorCode::UserAlreadyPredicted => "User has already predicted in this market",
            ErrorCode::AlreadyClaimed => "Winnings already claimed",
            ErrorCode::UserLost => "User did not win this market",
            ErrorCode::MathOverflow => "Math overflow",
        }
    }
}

/// Failures of the keyed store that owns the entities, wrapping the
/// engine's own failures. A key collision on creation and a missing
/// entity on lookup are storage-level outcomes, distinct from the
/// engine's validation results.
#[derive(Clone, Copy, Debug, PartialEq, Eq, Structural)]
pub enum LedgerError {
    /// The engine rejected the transition.
    Engine(ErrorCode),
    /// Creation addressed a key that is already occupied.
    DuplicateEntry,
    /// The operation addressed a key that holds no entity.
    MissingEntry,
}

} // verus!
