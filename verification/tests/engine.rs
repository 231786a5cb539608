use prediktfi_protocol::engine;
use prediktfi_protocol::errors::ErrorCode;
use prediktfi_protocol::state::AccountId;
use prediktfi_protocol::state::PredictionMarket;
use prediktfi_protocol::state::ProtocolState;
use prediktfi_protocol::state::UserPrediction;

fn open_market() -> PredictionMarket {
    PredictionMarket {
        id: String::from("btc-100k"),
        description: String::from("BTC above 100k by the deadline"),
        end_timestamp: 1_000,
        created_timestamp: 0,
        resolved_timestamp: None,
        min_bet_amount: 10,
        is_resolved: false,
        outcome: None,
        total_yes_amount: 0,
        total_no_amount: 0,
        total_participants: 0,
        authority: AccountId(1),
    }
}

fn resolved_market(outcome: bool, yes: u64, no: u64) -> PredictionMarket {
    PredictionMarket {
        resolved_timestamp: Some(1_000),
        is_resolved: true,
        outcome: Some(outcome),
        total_yes_amount: yes,
        total_no_amount: no,
        total_participants: 2,
        ..open_market()
    }
}

fn stake(amount: u64, prediction: bool) -> UserPrediction {
    UserPrediction {
        market: String::from("btc-100k"),
        user: AccountId(7),
        amount,
        prediction,
        timestamp: 500,
        claimed: false,
        winnings: 0,
    }
}

#[test]
fn error_codes_describe_themselves() {
    assert_eq!(ErrorCode::MarketExpired.message(), "Market has expired");
    assert_eq!(ErrorCode::UserLost.message(), "User did not win this market");
    assert_eq!(
        ErrorCode::UserAlreadyPredicted.message(),
        "User has already predicted in this market"
    );
    assert_eq!(ErrorCode::MathOverflow.message(), "Math overflow");
}

#[test]
fn initialize_starts_from_zero() {
    let (state, event) = engine::initialize(AccountId(9), 123);
    assert_eq!(state.authority, AccountId(9));
    assert_eq!(state.total_markets, 0);
    assert!(!state.is_paused);
    assert_eq!(event.authority, AccountId(9));
    assert_eq!(event.timestamp, 123);
}

#[test]
fn create_market_counts_and_zeroes() {
    let mut state = ProtocolState { authority: AccountId(1), total_markets: 41, is_paused: false };
    let r = engine::create_prediction_market(
        &mut state,
        String::from("m1"),
        String::from("a market"),
        900,
        5,
        AccountId(3),
        100,
    );
    let (market, event) = r.expect("creation must succeed");
    assert_eq!(state.total_markets, 42);
    assert_eq!(market.id, "m1");
    assert_eq!(market.description, "a market");
    assert_eq!(market.end_timestamp, 900);
    assert_eq!(market.created_timestamp, 100);
    assert_eq!(market.resolved_timestamp, None);
    assert_eq!(market.min_bet_amount, 5);
    assert!(!market.is_resolved);
    assert_eq!(market.outcome, None);
    assert_eq!(market.total_yes_amount, 0);
    assert_eq!(market.total_no_amount, 0);
    assert_eq!(market.total_participants, 0);
    assert_eq!(market.authority, AccountId(3));
    assert_eq!(event.market_id, "m1");
    assert_eq!(event.timestamp, 100);
}

#[test]
fn create_market_rejects_each_bad_input() {
    let base = ProtocolState { authority: AccountId(1), total_markets: 0, is_paused: false };

    let mut paused = ProtocolState { is_paused: true, ..base };
    let r = engine::create_prediction_market(
        &mut paused,
        String::from("m"),
        String::from("d"),
        900,
        5,
        AccountId(1),
        100,
    );
    assert_eq!(r.unwrap_err(), ErrorCode::ProtocolPaused);
    assert_eq!(paused.total_markets, 0);

    let mut state = base;
    let long_id = "x".repeat(51);
    let r = engine::create_prediction_market(
        &mut state,
        long_id,
        String::from("d"),
        900,
        5,
        AccountId(1),
        100,
    );
    assert_eq!(r.unwrap_err(), ErrorCode::MarketIdTooLong);

    let exact_id = "x".repeat(50);
    let long_desc = "y".repeat(501);
    let r = engine::create_prediction_market(
        &mut state,
        exact_id,
        long_desc,
        900,
        5,
        AccountId(1),
        100,
    );
    assert_eq!(r.unwrap_err(), ErrorCode::DescriptionTooLong);

    let r = engine::create_prediction_market(
        &mut state,
        String::from("m"),
        "y".repeat(500),
        900,
        0,
        AccountId(1),
        100,
    );
    assert_eq!(r.unwrap_err(), ErrorCode::InvalidMinBetAmount);

    let r = engine::create_prediction_market(
        &mut state,
        String::from("m"),
        String::from("d"),
        100,
        5,
        AccountId(1),
        100,
    );
    assert_eq!(r.unwrap_err(), ErrorCode::InvalidEndTime);
    assert_eq!(state.total_markets, 0);
}

#[test]
fn exact_length_limits_are_accepted() {
    let mut state = ProtocolState { authority: AccountId(1), total_markets: 0, is_paused: false };
    let r = engine::create_prediction_market(
        &mut state,
        "x".repeat(50),
        "y".repeat(500),
        900,
        1,
        AccountId(1),
        100,
    );
    assert!(r.is_ok(), "bounds are inclusive");
    assert_eq!(state.total_markets, 1);
}

#[test]
fn stake_at_the_minimum_is_accepted() {
    let mut market = open_market();
    let r = engine::place_prediction(&mut market, 0, AccountId(7), 10, false, 500);
    assert!(r.is_ok(), "the minimum itself meets the minimum");
    assert_eq!(market.total_no_amount, 10);
}

#[test]
fn place_prediction_updates_one_side() {
    let mut market = open_market();
    let r = engine::place_prediction(&mut market, 0, AccountId(7), 30, true, 500);
    let (record, event) = r.expect("stake must be accepted");
    assert_eq!(market.total_yes_amount, 30);
    assert_eq!(market.total_no_amount, 0);
    assert_eq!(market.total_participants, 1);
    assert_eq!(record.market, "btc-100k");
    assert_eq!(record.user, AccountId(7));
    assert_eq!(record.amount, 30);
    assert!(record.prediction);
    assert_eq!(record.timestamp, 500);
    assert!(!record.claimed);
    assert_eq!(record.winnings, 0);
    assert_eq!(event.amount, 30);
    assert!(event.prediction);

    let r = engine::place_prediction(&mut market, 0, AccountId(8), 12, false, 600);
    assert!(r.is_ok());
    assert_eq!(market.total_yes_amount, 30);
    assert_eq!(market.total_no_amount, 12);
    assert_eq!(market.total_participants, 2);
}

#[test]
fn place_prediction_rejections() {
    let mut market = open_market();

    let r = engine::place_prediction(&mut market, 0, AccountId(7), 9, true, 500);
    assert_eq!(r.unwrap_err(), ErrorCode::BetAmountTooLow);

    let r = engine::place_prediction(&mut market, 0, AccountId(7), 30, true, 1_000);
    assert_eq!(r.unwrap_err(), ErrorCode::MarketExpired);

    let r = engine::place_prediction(&mut market, 30, AccountId(7), 30, true, 500);
    assert_eq!(r.unwrap_err(), ErrorCode::UserAlreadyPredicted);

    let mut resolved = resolved_market(true, 0, 0);
    let r = engine::place_prediction(&mut resolved, 0, AccountId(7), 30, true, 500);
    assert_eq!(r.unwrap_err(), ErrorCode::MarketAlreadyResolved);
    assert_eq!(market.total_yes_amount, 0);
    assert_eq!(market.total_participants, 0);
}

#[test]
fn place_prediction_pool_overflow_is_checked() {
    let mut market = PredictionMarket { total_yes_amount: u64::MAX - 5, ..open_market() };
    let r = engine::place_prediction(&mut market, 0, AccountId(7), 10, true, 500);
    assert_eq!(r.unwrap_err(), ErrorCode::MathOverflow);
    assert_eq!(market.total_yes_amount, u64::MAX - 5);
    assert_eq!(market.total_participants, 0);

    let r = engine::place_prediction(&mut market, 0, AccountId(7), 10, false, 500);
    assert!(r.is_ok(), "the NO side still has room");
}

#[test]
fn resolve_market_sets_outcome_once() {
    let mut market = open_market();

    let r = engine::resolve_market(&mut market, AccountId(1), true, 999);
    assert_eq!(r.unwrap_err(), ErrorCode::MarketNotExpired);
    assert!(!market.is_resolved);

    let r = engine::resolve_market(&mut market, AccountId(1), true, 1_000);
    let event = r.expect("resolution at the deadline must succeed");
    assert!(market.is_resolved);
    assert_eq!(market.outcome, Some(true));
    assert_eq!(market.resolved_timestamp, Some(1_000));
    assert_eq!(event.market_id, "btc-100k");
    assert!(event.outcome);
    assert_eq!(event.timestamp, 1_000);

    let r = engine::resolve_market(&mut market, AccountId(1), false, 2_000);
    assert_eq!(r.unwrap_err(), ErrorCode::MarketAlreadyResolved);
    assert_eq!(market.outcome, Some(true));
    assert_eq!(market.resolved_timestamp, Some(1_000));
}

#[test]
fn claim_pays_the_documented_share() {
    // total pool 400, winning pool 300, stake 30: floor(30 * 400 / 300) = 40.
    let market = resolved_market(true, 300, 100);
    let mut record = stake(30, true);
    let event = engine::claim_winnings(&market, &mut record, 1_100).expect("winner claims");
    assert!(record.claimed);
    assert_eq!(record.winnings, 40);
    assert_eq!(event.amount, 40);
    assert_eq!(event.user, AccountId(7));
    assert_eq!(event.market_id, "btc-100k");
    assert_eq!(event.timestamp, 1_100);
}

#[test]
fn claim_rejections_leave_the_record_alone() {
    let open = open_market();
    let mut record = stake(30, true);
    let r = engine::claim_winnings(&open, &mut record, 1_100);
    assert_eq!(r.unwrap_err(), ErrorCode::MarketNotResolved);
    assert!(!record.claimed);

    let market = resolved_market(false, 300, 100);
    let r = engine::claim_winnings(&market, &mut record, 1_100);
    assert_eq!(r.unwrap_err(), ErrorCode::UserLost);
    assert!(!record.claimed);
    assert_eq!(record.winnings, 0);

    let market = resolved_market(true, 300, 100);
    let mut claimed = UserPrediction { claimed: true, winnings: 40, ..stake(30, true) };
    let r = engine::claim_winnings(&market, &mut claimed, 1_100);
    assert_eq!(r.unwrap_err(), ErrorCode::AlreadyClaimed);
    assert_eq!(claimed.winnings, 40);
}

#[test]
fn claim_guards_division_by_zero() {
    // A record on the winning side of an empty winning pool cannot arise
    // through the operations, but the engine still refuses the division.
    let market = resolved_market(true, 0, 100);
    let mut record = stake(30, true);
    let r = engine::claim_winnings(&market, &mut record, 1_100);
    assert_eq!(r.unwrap_err(), ErrorCode::MathOverflow);
    assert!(!record.claimed);
}

#[test]
fn claim_checked_arithmetic_never_truncates() {
    // Payout would be above u64::MAX: rejected, not wrapped.
    let half = 1u64 << 63;
    let market = resolved_market(true, half, half + 10);
    let mut record = stake(half, true);
    let r = engine::claim_winnings(&market, &mut record, 1_100);
    assert_eq!(r.unwrap_err(), ErrorCode::MathOverflow);
    assert!(!record.claimed);
    assert_eq!(record.winnings, 0);

    // The widened multiplication itself would overflow u128: rejected.
    let market = resolved_market(true, u64::MAX, u64::MAX);
    let mut record = stake(u64::MAX, true);
    let r = engine::claim_winnings(&market, &mut record, 1_100);
    assert_eq!(r.unwrap_err(), ErrorCode::MathOverflow);
    assert!(!record.claimed);
}
