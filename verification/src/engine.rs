//! The transition engine: the four market operations plus protocol
//! initialization, each acting on the entities it is handed with
//! exclusive access, as the hosting storage collaborator guarantees.
//!
//! Each operation has a spec-level description: a failure function that
//! fixes which failure (if any) the inputs produce, and a transition
//! function that fixes the successor state. The executable functions are
//! proved equal to these descriptions, so every caller reasons about the
//! specs alone.

use vstd::prelude::*;
use vstd::utf8::encode_utf8;

use crate::errors::ErrorCode;
use crate::events::MarketCreated;
use crate::events::MarketResolved;
use crate::events::PredictionPlaced;
use crate::events::ProtocolInitialized;
use crate::events::WinningsClaimed;
use crate::payout::spec_payout;
use crate::state::AccountId;
use crate::state::PredictionMarket;
use crate::state::ProtocolState;
use crate::state::UserPrediction;
use crate::state::MAX_DESCRIPTION_LEN;
use crate::state::MAX_MARKET_ID_LEN;

verus! {

/// Which failure market creation reports for these inputs, if any.
/// Checks run in this order; `None` means the creation succeeds.
pub open spec fn create_market_err(
    protocol_state: ProtocolState,
    market_id: Seq<char>,
    description: Seq<char>,
    end_timestamp: i64,
    min_bet_amount: u64,
    now: i64,
) -> Option<ErrorCode> {
    if protocol_state.is_paused {
        Some(ErrorCode::ProtocolPaused)
    } else if encode_utf8(market_id).len() > MAX_MARKET_ID_LEN {
        Some(ErrorCode::MarketIdTooLong)
    } else if encode_utf8(description).len() > MAX_DESCRIPTION_LEN {
        Some(ErrorCode::DescriptionTooLong)
    } else if min_bet_amount == 0 {
        Some(ErrorCode::InvalidMinBetAmount)
    } else if end_timestamp <= now {
        Some(ErrorCode::InvalidEndTime)
    } else if protocol_state.total_markets == u64::MAX {
        Some(ErrorCode::MathOverflow)
    } else {
        None
    }
}

/// The market a successful creation allocates: empty pools, unresolved,
/// resolver authority = creator.
pub open spec fn spec_created_market(
    market_id: String,
    description: String,
    end_timestamp: i64,
    min_bet_amount: u64,
    authority: AccountId,
    now: i64,
) -> PredictionMarket {
    PredictionMarket {
        id: market_id,
        description: description,
        end_timestamp: end_timestamp,
        created_timestamp: now,
        resolved_timestamp: None,
        min_bet_amount: min_bet_amount,
        is_resolved: false,
        outcome: None,
        total_yes_amount: 0,
        total_no_amount: 0,
        total_participants: 0,
        authority: authority,
    }
}

/// Which failure a stake placement reports, if any. `prior_amount` is the
/// stake already recorded at this market's (market, user) key, or zero
/// when that key is vacant, as the storage collaborator reports it.
pub open spec fn place_prediction_err(
    market: PredictionMarket,
    prior_amount: u64,
    amount: u64,
    prediction: bool,
    now: i64,
) -> Option<ErrorCode> {
    if market.is_resolved {
        Some(ErrorCode::MarketAlreadyResolved)
    } else if amount < market.min_bet_amount {
        Some(ErrorCode::BetAmountTooLow)
    } else if now >= market.end_timestamp {
        Some(ErrorCode::MarketExpired)
    } else if prior_amount > 0 {
        Some(ErrorCode::UserAlreadyPredicted)
    } else if market.side_pool(prediction) + amount > u64::MAX {
        Some(ErrorCode::MathOverflow)
    } else if market.total_participants == u64::MAX {
        Some(ErrorCode::MathOverflow)
    } else {
        None
    }
}

/// The market after a successful stake: `amount` pooled on the chosen
/// side, one more participant, everything else untouched.
pub open spec fn spec_staked_market(
    market: PredictionMarket,
    amount: u64,
    prediction: bool,
) -> PredictionMarket {
    PredictionMarket {
        total_yes_amount: if prediction {
            (market.total_yes_amount + amount) as u64
        } else {
            market.total_yes_amount
        },
        total_no_amount: if prediction {
            market.total_no_amount
        } else {
            (market.total_no_amount + amount) as u64
        },
        total_participants: (market.total_participants + 1) as u64,
        ..market
    }
}

/// The stake record a successful placement creates: unclaimed, with zero
/// winnings.
pub open spec fn spec_stake_record(
    market_id: String,
    user: AccountId,
    amount: u64,
    prediction: bool,
    now: i64,
) -> UserPrediction {
    UserPrediction {
        market: market_id,
        user: user,
        amount: amount,
        prediction: prediction,
        timestamp: now,
        claimed: false,
        winnings: 0,
    }
}

/// Which failure a resolution reports, if any. Resolution is allowed only
/// once, and only at or after the deadline.
pub open spec fn resolve_market_err(market: PredictionMarket, now: i64) -> Option<ErrorCode> {
    if market.is_resolved {
        Some(ErrorCode::MarketAlreadyResolved)
    } else if now < market.end_timestamp {
        Some(ErrorCode::MarketNotExpired)
    } else {
        None
    }
}

/// The market after a successful resolution: outcome assigned, pools
/// frozen from here on.
pub open spec fn spec_resolved_market(
    market: PredictionMarket,
    outcome: bool,
    now: i64,
) -> PredictionMarket {
    PredictionMarket {
        is_resolved: true,
        outcome: Some(outcome),
        resolved_timestamp: Some(now),
        ..market
    }
}

/// Which failure a claim reports, if any. A claim pays out only to an
/// unclaimed record on the winning side, and every arithmetic step is
/// checked.
pub open spec fn claim_winnings_err(
    market: PredictionMarket,
    record: UserPrediction,
) -> Option<ErrorCode> {
    if !market.is_resolved {
        Some(ErrorCode::MarketNotResolved)
    } else if record.claimed {
        Some(ErrorCode::AlreadyClaimed)
    } else if market.outcome is None {
        Some(ErrorCode::MarketNotResolved)
    } else if record.prediction != market.outcome->0 {
        Some(ErrorCode::UserLost)
    } else if market.side_pool(market.outcome->0) == 0 {
        Some(ErrorCode::MathOverflow)
    } else if record.amount * market.total_pool() > u128::MAX {
        Some(ErrorCode::MathOverflow)
    } else if spec_payout(
        record.amount,
        market.total_yes_amount,
        market.total_no_amount,
        market.outcome->0,
    ) > u64::MAX {
        Some(ErrorCode::MathOverflow)
    } else {
        None
    }
}

/// The stake record after a successful claim: marked claimed, with its
/// winnings recorded exactly once.
pub open spec fn spec_claimed_record(record: UserPrediction, winnings: u64) -> UserPrediction {
    UserPrediction { claimed: true, winnings: winnings, ..record }
}

/// Creates the protocol singleton and the event announcing it.
pub fn initialize(authority: AccountId, now: i64) -> (result: (ProtocolState, ProtocolInitialized))
    ensures
        result.0 == (ProtocolState { authority: authority, total_markets: 0, is_paused: false }),
        result.1 == (ProtocolInitialized { authority: authority, timestamp: now }),
{
    let protocol_state = ProtocolState { authority, total_markets: 0, is_paused: false };
    let event = ProtocolInitialized { authority, timestamp: now };
    (protocol_state, event)
}

/// Validates the creation inputs and, when they pass, allocates the new
/// market, counts it in the protocol singleton, and returns the event to
/// emit. On failure the singleton is untouched.
pub fn create_prediction_market(
    protocol_state: &mut ProtocolState,
    market_id: String,
    description: String,
    end_timestamp: i64,
    min_bet_amount: u64,
    authority: AccountId,
    now: i64,
) -> (result: Result<(PredictionMarket, MarketCreated), ErrorCode>)
    ensures
        match result {
            Ok((market, event)) => {
                &&& create_market_err(
                    *old(protocol_state),
                    market_id@,
                    description@,
                    end_timestamp,
                    min_bet_amount,
                    now,
                ) is None
                &&& market == spec_created_market(
                    market_id,
                    description,
                    end_timestamp,
                    min_bet_amount,
                    authority,
                    now,
                )
                &&& market.wf()
                &&& *final(protocol_state) == (ProtocolState {
                    total_markets: (old(protocol_state).total_markets + 1) as u64,
                    ..*old(protocol_state)
                })
                &&& event == (MarketCreated {
                    market_id: market_id,
                    description: description,
                    end_timestamp: end_timestamp,
                    authority: authority,
                    timestamp: now,
                })
            },
            Err(e) => {
                &&& Some(e) == create_market_err(
                    *old(protocol_state),
                    market_id@,
                    description@,
                    end_timestamp,
                    min_bet_amount,
                    now,
                )
                &&& *final(protocol_state) == *old(protocol_state)
            },
        },
{
    if protocol_state.is_paused {
        return Err(ErrorCode::ProtocolPaused);
    }
    if market_id.as_str().as_bytes().len() > MAX_MARKET_ID_LEN {
        return Err(ErrorCode::MarketIdTooLong);
    }
    if description.as_str().as_bytes().len() > MAX_DESCRIPTION_LEN {
        return Err(ErrorCode::DescriptionTooLong);
    }
    if min_bet_amount == 0 {
        return Err(ErrorCode::InvalidMinBetAmount);
    }
    if end_timestamp <= now {
        return Err(ErrorCode::InvalidEndTime);
    }
    if protocol_state.total_markets == u64::MAX {
        return Err(ErrorCode::MathOverflow);
    }
    let event = MarketCreated {
        market_id: market_id.clone(),
        description: description.clone(),
        end_timestamp,
        authority,
        timestamp: now,
    };
    let market = PredictionMarket {
        id: market_id,
        description,
        end_timestamp,
        created_timestamp: now,
        resolved_timestamp: None,
        min_bet_amount,
        is_resolved: false,
        outcome: None,
        total_yes_amount: 0,
        total_no_amount: 0,
        total_participants: 0,
        authority,
    };
    protocol_state.total_markets = protocol_state.total_markets + 1;
    Ok((market, event))
}

/// Validates a stake and, when it passes, pools the amount on the chosen
/// side and creates the participant's record. The value-transfer
/// collaborator moves `amount` into the pool atomically with this
/// transition; `prior_amount` is the stake already recorded at the
/// (market, user) key, zero when the key is vacant.
pub fn place_prediction(
    market: &mut PredictionMarket,
    prior_amount: u64,
    user: AccountId,
    amount: u64,
    prediction: bool,
    now: i64,
) -> (result: Result<(UserPrediction, PredictionPlaced), ErrorCode>)
    ensures
        match result {
            Ok((record, event)) => {
                &&& place_prediction_err(*old(market), prior_amount, amount, prediction, now)
                    is None
                &&& *final(market) == spec_staked_market(*old(market), amount, prediction)
                &&& record == spec_stake_record(old(market).id, user, amount, prediction, now)
                &&& event == (PredictionPlaced {
                    market_id: old(market).id,
                    user: user,
                    amount: amount,
                    prediction: prediction,
                    timestamp: now,
                })
            },
            Err(e) => {
                &&& Some(e) == place_prediction_err(
                    *old(market),
                    prior_amount,
                    amount,
                    prediction,
                    now,
                )
                &&& *final(market) == *old(market)
            },
        },
{
    if market.is_resolved {
        return Err(ErrorCode::MarketAlreadyResolved);
    }
    if amount < market.min_bet_amount {
        return Err(ErrorCode::BetAmountTooLow);
    }
    if now >= market.end_timestamp {
        return Err(ErrorCode::MarketExpired);
    }
    if prior_amount > 0 {
        return Err(ErrorCode::UserAlreadyPredicted);
    }
    if prediction {
        match market.total_yes_amount.checked_add(amount) {
            Some(new_total) => {
                if market.total_participants == u64::MAX {
                    return Err(ErrorCode::MathOverflow);
                }
                market.total_yes_amount = new_total;
            },
            None => {
                return Err(ErrorCode::MathOverflow);
            },
        }
    } else {
        match market.total_no_amount.checked_add(amount) {
            Some(new_total) => {
                if market.total_participants == u64::MAX {
                    return Err(ErrorCode::MathOverflow);
                }
                market.total_no_amount = new_total;
            },
            None => {
                return Err(ErrorCode::MathOverflow);
            },
        }
    }
    market.total_participants = market.total_participants + 1;
    let record = UserPrediction {
        market: market.id.clone(),
        user,
        amount,
        prediction,
        timestamp: now,
        claimed: false,
        winnings: 0,
    };
    let event = PredictionPlaced {
        market_id: market.id.clone(),
        user,
        amount,
        prediction,
        timestamp: now,
    };
    Ok((record, event))
}

/// Resolves the market exactly once, at or after its deadline, freezing
/// the pools and assigning the outcome the authorized resolver supplies.
/// The identity collaborator has already proved that the caller controls
/// `authority`; the core requires it to be the market's resolver.
pub fn resolve_market(
    market: &mut PredictionMarket,
    authority: AccountId,
    outcome: bool,
    now: i64,
) -> (result: Result<MarketResolved, ErrorCode>)
    requires
        authority == old(market).authority,
    ensures
        match result {
            Ok(event) => {
                &&& resolve_market_err(*old(market), now) is None
                &&& *final(market) == spec_resolved_market(*old(market), outcome, now)
                &&& event == (MarketResolved {
                    market_id: old(market).id,
                    outcome: outcome,
                    total_yes_amount: old(market).total_yes_amount,
                    total_no_amount: old(market).total_no_amount,
                    timestamp: now,
                })
            },
            Err(e) => {
                &&& Some(e) == resolve_market_err(*old(market), now)
                &&& *final(market) == *old(market)
            },
        },
{
    if market.is_resolved {
        return Err(ErrorCode::MarketAlreadyResolved);
    }
    if now < market.end_timestamp {
        return Err(ErrorCode::MarketNotExpired);
    }
    market.is_resolved = true;
    market.outcome = Some(outcome);
    market.resolved_timestamp = Some(now);
    let event = MarketResolved {
        market_id: market.id.clone(),
        outcome,
        total_yes_amount: market.total_yes_amount,
        total_no_amount: market.total_no_amount,
        timestamp: now,
    };
    Ok(event)
}

/// Pays a winning, unclaimed record its proportional share of the whole
/// pool: `floor(amount * total_pool / winning_pool)`, computed in a
/// widened domain with every step checked. The value-transfer
/// collaborator moves the winnings out of the pool atomically with this
/// transition. A second claim on the same record fails and changes
/// nothing.
pub fn claim_winnings(
    market: &PredictionMarket,
    user_prediction: &mut UserPrediction,
    now: i64,
) -> (result: Result<WinningsClaimed, ErrorCode>)
    ensures
        match result {
            Ok(event) => {
                &&& claim_winnings_err(*market, *old(user_prediction)) is None
                &&& 0 <= spec_payout(
                    old(user_prediction).amount,
                    market.total_yes_amount,
                    market.total_no_amount,
                    market.outcome->0,
                ) <= u64::MAX
                &&& *final(user_prediction) == spec_claimed_record(
                    *old(user_prediction),
                    spec_payout(
                        old(user_prediction).amount,
                        market.total_yes_amount,
                        market.total_no_amount,
                        market.outcome->0,
                    ) as u64,
                )
                &&& event == (WinningsClaimed {
                    market_id: market.id,
                    user: old(user_prediction).user,
                    amount: final(user_prediction).winnings,
                    timestamp: now,
                })
            },
            Err(e) => {
                &&& Some(e) == claim_winnings_err(*market, *old(user_prediction))
                &&& *final(user_prediction) == *old(user_prediction)
            },
        },
{
    if !market.is_resolved {
        return Err(ErrorCode::MarketNotResolved);
    }
    if user_prediction.claimed {
        return Err(ErrorCode::AlreadyClaimed);
    }
    let outcome = match market.outcome {
        Some(o) => o,
        None => {
            return Err(ErrorCode::MarketNotResolved);
        },
    };
    if user_prediction.prediction != outcome {
        return Err(ErrorCode::UserLost);
    }
    let total_pool: u128 = market.total_yes_amount as u128 + market.total_no_amount as u128;
    let winning_pool: u64 = if outcome {
        market.total_yes_amount
    } else {
        market.total_no_amount
    };
    if winning_pool == 0 {
        return Err(ErrorCode::MathOverflow);
    }
    let product = match (user_prediction.amount as u128).checked_mul(total_pool) {
        Some(p) => p,
        None => {
            return Err(ErrorCode::MathOverflow);
        },
    };
    let wide = product / (winning_pool as u128);
    if wide > u64::MAX as u128 {
        return Err(ErrorCode::MathOverflow);
    }
    let user_winnings = wide as u64;
    user_prediction.claimed = true;
    user_prediction.winnings = user_winnings;
    let event = WinningsClaimed {
        market_id: market.id.clone(),
        user: user_prediction.user,
        amount: user_winnings,
        timestamp: now,
    };
    Ok(event)
}

/// A stake below the market's minimum is rejected whatever else the
/// market's state is: no input makes the placement succeed.
pub proof fn lemma_stake_below_minimum_never_accepted(
    market: PredictionMarket,
    prior_amount: u64,
    amount: u64,
    prediction: bool,
    now: i64,
)
    requires
        amount < market.min_bet_amount,
    ensures
        place_prediction_err(market, prior_amount, amount, prediction, now) is Some,
{
}

/// The stake deadline is a strict bound: a placement whose other checks
/// pass is rejected as expired at the deadline and after it, and accepted
/// strictly before it (overflow aside).
pub proof fn lemma_stake_deadline_is_strict(
    market: PredictionMarket,
    amount: u64,
    prediction: bool,
    now: i64,
)
    requires
        !market.is_resolved,
        amount >= market.min_bet_amount,
    ensures
        now >= market.end_timestamp ==> place_prediction_err(market, 0, amount, prediction, now)
            == Some(ErrorCode::MarketExpired),
        now < market.end_timestamp && market.side_pool(prediction) + amount <= u64::MAX
            && market.total_participants < u64::MAX ==> place_prediction_err(
            market,
            0,
            amount,
            prediction,
            now,
        ) is None,
{
}

/// After resolution the pooled totals are frozen: placement is the only
/// operation that changes them, and it fails on a resolved market
/// whatever its other inputs are.
pub proof fn lemma_resolved_market_pools_frozen(
    market: PredictionMarket,
    prior_amount: u64,
    amount: u64,
    prediction: bool,
    now: i64,
)
    requires
        market.is_resolved,
    ensures
        place_prediction_err(market, prior_amount, amount, prediction, now) == Some(
            ErrorCode::MarketAlreadyResolved,
        ),
{
}

/// Winnings are paid at most once: after a successful claim the record
/// is marked claimed, and every further claim on it fails as already
/// claimed — whatever winnings it recorded — so it is never paid twice.
pub proof fn lemma_winnings_claimed_at_most_once(
    market: PredictionMarket,
    record: UserPrediction,
    winnings: u64,
)
    requires
        market.is_resolved,
    ensures
        claim_winnings_err(market, spec_claimed_record(record, winnings)) == Some(
            ErrorCode::AlreadyClaimed,
        ),
{
}

/// A market resolves exactly once: after a successful resolution, every
/// further resolution attempt fails as already resolved, whatever time
/// and outcome it supplies.
pub proof fn lemma_market_resolves_exactly_once(
    market: PredictionMarket,
    outcome: bool,
    now: i64,
    later_outcome: bool,
    later: i64,
)
    requires
        resolve_market_err(market, now) is None,
    ensures
        resolve_market_err(spec_resolved_market(market, outcome, now), later) == Some(
            ErrorCode::MarketAlreadyResolved,
        ),
{
}

} // verus!
