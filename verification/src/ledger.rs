//! The keyed store that owns the entities: markets keyed by identifier,
//! stake records keyed by (market identifier, participant). It enforces
//! what the storage collaborator enforces — create-if-absent on both
//! keys — and carries the accounting invariant that ties each market's
//! pooled totals to the stake records that fed them.

use vstd::prelude::*;

use crate::engine;
use crate::engine::claim_winnings_err;
use crate::engine::create_market_err;
use crate::engine::place_prediction_err;
use crate::engine::resolve_market_err;
use crate::engine::spec_claimed_record;
use crate::engine::spec_created_market;
use crate::engine::spec_resolved_market;
use crate::engine::spec_stake_record;
use crate::engine::spec_staked_market;
use crate::errors::ErrorCode;
use crate::errors::LedgerError;
use crate::events::MarketCreated;
use crate::events::MarketResolved;
use crate::events::PredictionPlaced;
use crate::events::ProtocolInitialized;
use crate::events::WinningsClaimed;
use crate::payout::spec_payout;
use crate::state::AccountId;
use crate::state::PredictionMarket;
use crate::state::ProtocolState;
use crate::state::UserPrediction;

verus! {

/// Whether some market in `markets` carries the identifier `id`.
pub open spec fn has_market(markets: Seq<PredictionMarket>, id: Seq<char>) -> bool {
    exists|i: int| 0 <= i < markets.len() && markets[i].id@ == id
}

/// The index of the market carrying `id`; under the ledger invariant it
/// is unique.
pub open spec fn market_index(markets: Seq<PredictionMarket>, id: Seq<char>) -> int {
    choose|i: int| 0 <= i < markets.len() && markets[i].id@ == id
}

/// Whether `user` already holds a stake record in the market keyed `id`.
pub open spec fn has_stake(records: Seq<UserPrediction>, id: Seq<char>, user: AccountId) -> bool {
    exists|k: int|
        0 <= k < records.len() && records[k].market@ == id && records[k].user == user
}

/// The index of that stake record; unique under the ledger invariant.
pub open spec fn stake_index(records: Seq<UserPrediction>, id: Seq<char>, user: AccountId) -> int {
    choose|k: int|
        0 <= k < records.len() && records[k].market@ == id && records[k].user == user
}

/// The stake already recorded at the (market, user) key, zero when that
/// key is vacant: what the storage collaborator reports to a placement.
pub open spec fn prior_stake_amount(
    records: Seq<UserPrediction>,
    id: Seq<char>,
    user: AccountId,
) -> u64 {
    if has_stake(records, id, user) {
        records[stake_index(records, id, user)].amount
    } else {
        0
    }
}

/// The stakes recorded for side `side` of the market keyed `id`.
pub open spec fn side_sum(records: Seq<UserPrediction>, id: Seq<char>, side: bool) -> int
    decreases records.len(),
{
    if records.len() == 0 {
        0
    } else {
        side_sum(records.drop_last(), id, side) + if records.last().market@ == id
            && records.last().prediction == side {
            records.last().amount as int
        } else {
            0
        }
    }
}

/// How many stake records the market keyed `id` has.
pub open spec fn stake_count(records: Seq<UserPrediction>, id: Seq<char>) -> int
    decreases records.len(),
{
    if records.len() == 0 {
        0
    } else {
        stake_count(records.drop_last(), id) + if records.last().market@ == id {
            1 as int
        } else {
            0
        }
    }
}

/// The ledger: the protocol singleton and every market and stake record,
/// owned exclusively.
pub struct Ledger {
    pub protocol: ProtocolState,
    pub markets: Vec<PredictionMarket>,
    pub predictions: Vec<UserPrediction>,
}

impl Ledger {
    /// The ledger invariant: market keys are unique, every entity is
    /// well-formed, each stake record points back at an existing market,
    /// each (market, user) key holds at most one record, the protocol
    /// counter counts the markets, and — the accounting core — each
    /// market's pooled totals equal the sums of the stakes recorded for
    /// it.
    pub open spec fn wf(self) -> bool {
        &&& self.protocol.total_markets == self.markets@.len()
        &&& forall|i: int, j: int|
            #![trigger self.markets@[i], self.markets@[j]]
            0 <= i < j < self.markets@.len() ==> self.markets@[i].id@ != self.markets@[j].id@
        &&& forall|i: int|
            0 <= i < self.markets@.len() ==> (#[trigger] self.markets@[i]).wf()
        &&& forall|i: int|
            0 <= i < self.markets@.len() ==> (#[trigger] self.markets@[i]).total_yes_amount
                == side_sum(self.predictions@, self.markets@[i].id@, true)
        &&& forall|i: int|
            0 <= i < self.markets@.len() ==> (#[trigger] self.markets@[i]).total_no_amount
                == side_sum(self.predictions@, self.markets@[i].id@, false)
        &&& forall|i: int|
            0 <= i < self.markets@.len() ==> (#[trigger] self.markets@[i]).total_participants
                == stake_count(self.predictions@, self.markets@[i].id@)
        &&& forall|k: int|
            0 <= k < self.predictions@.len() ==> (#[trigger] self.predictions@[k]).wf()
        &&& forall|k: int|
            0 <= k < self.predictions@.len() ==> has_market(
                self.markets@,
                (#[trigger] self.predictions@[k]).market@,
            )
        &&& forall|k: int, l: int|
            #![trigger self.predictions@[k], self.predictions@[l]]
            0 <= k < l < self.predictions@.len() ==> !(self.predictions@[k].market@
                == self.predictions@[l].market@ && self.predictions@[k].user
                == self.predictions@[l].user)
    }

    /// Whether this ledger holds exactly the same state as `other`:
    /// what "no observable mutation" means for a failed transition.
    pub open spec fn same_state(self, other: Ledger) -> bool {
        &&& self.protocol == other.protocol
        &&& self.markets@ == other.markets@
        &&& self.predictions@ == other.predictions@
    }

    /// The market stored under `id` (meaningful when `has_market` holds).
    pub open spec fn spec_market(self, id: Seq<char>) -> PredictionMarket {
        self.markets@[market_index(self.markets@, id)]
    }

    /// The stake record stored under (`id`, `user`) (meaningful when
    /// `has_stake` holds).
    pub open spec fn spec_stake(self, id: Seq<char>, user: AccountId) -> UserPrediction {
        self.predictions@[stake_index(self.predictions@, id, user)]
    }
}

/// Under unique market keys, any index whose market carries `id` is the
/// index `market_index` denotes.
pub proof fn lemma_market_index_unique(markets: Seq<PredictionMarket>, id: Seq<char>, i: int)
    requires
        forall|p: int, q: int|
            #![trigger markets[p], markets[q]]
            0 <= p < q < markets.len() ==> markets[p].id@ != markets[q].id@,
        0 <= i < markets.len(),
        markets[i].id@ == id,
    ensures
        has_market(markets, id),
        market_index(markets, id) == i,
{
    assert(has_market(markets, id));
    let c = market_index(markets, id);
    if c != i {
        assert(markets[c].id@ == id);
        if c < i {
            assert(markets[c].id@ != markets[i].id@);
        } else {
            assert(markets[i].id@ != markets[c].id@);
        }
    }
}

/// Under at-most-one-record-per-key, any index whose record matches
/// (`id`, `user`) is the index `stake_index` denotes.
pub proof fn lemma_stake_index_unique(
    records: Seq<UserPrediction>,
    id: Seq<char>,
    user: AccountId,
    k: int,
)
    requires
        forall|p: int, q: int|
            #![trigger records[p], records[q]]
            0 <= p < q < records.len() ==> !(records[p].market@ == records[q].market@
                && records[p].user == records[q].user),
        0 <= k < records.len(),
        records[k].market@ == id,
        records[k].user == user,
    ensures
        has_stake(records, id, user),
        stake_index(records, id, user) == k,
{
    assert(has_stake(records, id, user));
    let c = stake_index(records, id, user);
    if c != k {
        assert(records[c].market@ == id && records[c].user == user);
        if c < k {
            assert(!(records[c].market@ == records[k].market@ && records[c].user
                == records[k].user));
        } else {
            assert(!(records[k].market@ == records[c].market@ && records[k].user
                == records[c].user));
        }
    }
}

/// Appending a record adds its amount to exactly the (market, side) sum
/// it belongs to, and one to exactly its market's record count.
pub proof fn lemma_sums_push(
    records: Seq<UserPrediction>,
    r: UserPrediction,
    id: Seq<char>,
    side: bool,
)
    ensures
        side_sum(records.push(r), id, side) == side_sum(records, id, side) + if r.market@ == id
            && r.prediction == side {
            r.amount as int
        } else {
            0
        },
        stake_count(records.push(r), id) == stake_count(records, id) + if r.market@ == id {
            1 as int
        } else {
            0
        },
{
    assert(records.push(r).drop_last() =~= records);
    assert(records.push(r).last() == r);
}

/// Updating a record without touching its key, side or amount leaves
/// every sum and count unchanged (a claim flips `claimed` and sets
/// `winnings` only).
pub proof fn lemma_sums_update_keeps(
    records: Seq<UserPrediction>,
    k: int,
    r: UserPrediction,
    id: Seq<char>,
    side: bool,
)
    requires
        0 <= k < records.len(),
        r.market@ == records[k].market@,
        r.prediction == records[k].prediction,
        r.amount == records[k].amount,
    ensures
        side_sum(records.update(k, r), id, side) == side_sum(records, id, side),
        stake_count(records.update(k, r), id) == stake_count(records, id),
    decreases records.len(),
{
    let u = records.update(k, r);
    if k == records.len() - 1 {
        assert(u.drop_last() =~= records.drop_last());
        assert(u.last() == r);
    } else {
        assert(u.drop_last() =~= records.drop_last().update(k, r));
        assert(u.last() == records.last());
        lemma_sums_update_keeps(records.drop_last(), k, r, id, side);
    }
}

/// A market no record points at has zero sums and zero count.
pub proof fn lemma_sums_absent(records: Seq<UserPrediction>, id: Seq<char>)
    requires
        forall|k: int| 0 <= k < records.len() ==> (#[trigger] records[k]).market@ != id,
    ensures
        side_sum(records, id, true) == 0,
        side_sum(records, id, false) == 0,
        stake_count(records, id) == 0,
    decreases records.len(),
{
    if records.len() > 0 {
        assert(records.last() == records[records.len() - 1]);
        assert(forall|k: int|
            0 <= k < records.drop_last().len() ==> (#[trigger] records.drop_last()[k]).market@
                != id);
        lemma_sums_absent(records.drop_last(), id);
    }
}

/// Sums of stakes are nonnegative.
pub proof fn lemma_side_sum_nonnegative(records: Seq<UserPrediction>, id: Seq<char>, side: bool)
    ensures
        0 <= side_sum(records, id, side),
    decreases records.len(),
{
    if records.len() > 0 {
        lemma_side_sum_nonnegative(records.drop_last(), id, side);
    }
}

impl Ledger {
    /// Creates the protocol singleton with an empty store and returns the
    /// event announcing it.
    pub fn initialize(authority: AccountId, now: i64) -> (result: (Ledger, ProtocolInitialized))
        ensures
            result.0.wf(),
            result.0.protocol == (ProtocolState {
                authority: authority,
                total_markets: 0,
                is_paused: false,
            }),
            result.0.markets@ == Seq::<PredictionMarket>::empty(),
            result.0.predictions@ == Seq::<UserPrediction>::empty(),
            result.1 == (ProtocolInitialized { authority: authority, timestamp: now }),
    {
        let (protocol, event) = engine::initialize(authority, now);
        let ledger = Ledger { protocol, markets: Vec::new(), predictions: Vec::new() };
        (ledger, event)
    }

    /// Looks the market identifier up, as the storage collaborator's
    /// keyed read would.
    fn find_market(&self, market_id: &String) -> (r: Option<usize>)
        ensures
            match r {
                Some(i) => i < self.markets@.len() && self.markets@[i as int].id@ == market_id@,
                None => !has_market(self.markets@, market_id@),
            },
    {
        let n = self.markets.len();
        let mut i: usize = 0;
        while i < n
            invariant
                n == self.markets@.len(),
                i <= n,
                forall|j: int| 0 <= j < i ==> self.markets@[j].id@ != market_id@,
            decreases n - i,
        {
            if self.markets[i].id == *market_id {
                return Some(i);
            }
            i = i + 1;
        }
        None
    }

    /// Looks the (market, user) stake key up.
    fn find_stake(&self, market_id: &String, user: AccountId) -> (r: Option<usize>)
        ensures
            match r {
                Some(k) => k < self.predictions@.len() && self.predictions@[k as int].market@
                    == market_id@ && self.predictions@[k as int].user == user,
                None => !has_stake(self.predictions@, market_id@, user),
            },
    {
        let n = self.predictions.len();
        let mut k: usize = 0;
        while k < n
            invariant
                n == self.predictions@.len(),
                k <= n,
                forall|j: int|
                    0 <= j < k ==> !(self.predictions@[j].market@ == market_id@
                        && self.predictions@[j].user == user),
            decreases n - k,
        {
            if self.predictions[k].market == *market_id && self.predictions[k].user == user {
                return Some(k);
            }
            k = k + 1;
        }
        None
    }

    /// Creates a market under a fresh identifier. A duplicate identifier
    /// fails as a key collision before the engine runs, and every failure
    /// leaves the ledger exactly as it was.
    pub fn create_prediction_market(
        &mut self,
        market_id: String,
        description: String,
        end_timestamp: i64,
        min_bet_amount: u64,
        authority: AccountId,
        now: i64,
    ) -> (result: Result<MarketCreated, LedgerError>)
        requires
            old(self).wf(),
        ensures
            final(self).wf(),
            match result {
                Ok(event) => {
                    &&& !has_market(old(self).markets@, market_id@)
                    &&& create_market_err(
                        old(self).protocol,
                        market_id@,
                        description@,
                        end_timestamp,
                        min_bet_amount,
                        now,
                    ) is None
                    &&& final(self).markets@ == old(self).markets@.push(
                        spec_created_market(
                            market_id,
                            description,
                            end_timestamp,
                            min_bet_amount,
                            authority,
                            now,
                        ),
                    )
                    &&& final(self).predictions@ == old(self).predictions@
                    &&& final(self).protocol == (ProtocolState {
                        total_markets: (old(self).protocol.total_markets + 1) as u64,
                        ..old(self).protocol
                    })
                    &&& event == (MarketCreated {
                        market_id: market_id,
                        description: description,
                        end_timestamp: end_timestamp,
                        authority: authority,
                        timestamp: now,
                    })
                },
                Err(LedgerError::DuplicateEntry) => {
                    &&& has_market(old(self).markets@, market_id@)
                    &&& final(self).same_state(*old(self))
                },
                Err(LedgerError::Engine(e)) => {
                    &&& !has_market(old(self).markets@, market_id@)
                    &&& Some(e) == create_market_err(
                        old(self).protocol,
                        market_id@,
                        description@,
                        end_timestamp,
                        min_bet_amount,
                        now,
                    )
                    &&& final(self).same_state(*old(self))
                },
                Err(LedgerError::MissingEntry) => false,
            },
    {
        match self.find_market(&market_id) {
            Some(i) => {
                proof {
                    assert(has_market(self.markets@, market_id@));
                }
                return Err(LedgerError::DuplicateEntry);
            },
            None => {},
        }
        let mut protocol = self.protocol;
        match engine::create_prediction_market(
            &mut protocol,
            market_id,
            description,
            end_timestamp,
            min_bet_amount,
            authority,
            now,
        ) {
            Ok((market, event)) => {
                self.protocol = protocol;
                let ghost old_markets = self.markets@;
                let ghost old_records = self.predictions@;
                let ghost new_id = market.id@;
                self.markets.push(market);
                proof {
                    assert forall|k: int|
                        0 <= k < old_records.len() implies (#[trigger] old_records[k]).market@
                        != new_id by {
                        if old_records[k].market@ == new_id {
                            assert(has_market(old_markets, new_id));
                        }
                    }
                    lemma_sums_absent(old_records, new_id);
                    assert forall|k: int|
                        0 <= k < old_records.len() implies has_market(
                        self.markets@,
                        (#[trigger] old_records[k]).market@,
                    ) by {
                        let w = choose|i: int|
                            0 <= i < old_markets.len() && old_markets[i].id@
                                == old_records[k].market@;
                        assert(self.markets@[w].id@ == old_records[k].market@);
                    }
                }
                Ok(event)
            },
            Err(e) => Err(LedgerError::Engine(e)),
        }
    }

    /// Places a stake: validates it against the addressed market, pools
    /// the amount and creates the record under the vacant (market, user)
    /// key. A second stake by the same participant fails as already
    /// predicted and changes nothing.
    pub fn place_prediction(
        &mut self,
        market_id: &String,
        user: AccountId,
        amount: u64,
        prediction: bool,
        now: i64,
    ) -> (result: Result<PredictionPlaced, LedgerError>)
        requires
            old(self).wf(),
        ensures
            final(self).wf(),
            match result {
                Ok(event) => {
                    &&& has_market(old(self).markets@, market_id@)
                    &&& !has_stake(old(self).predictions@, market_id@, user)
                    &&& place_prediction_err(
                        old(self).spec_market(market_id@),
                        0,
                        amount,
                        prediction,
                        now,
                    ) is None
                    &&& final(self).markets@ == old(self).markets@.update(
                        market_index(old(self).markets@, market_id@),
                        spec_staked_market(old(self).spec_market(market_id@), amount, prediction),
                    )
                    &&& final(self).predictions@ == old(self).predictions@.push(
                        spec_stake_record(
                            old(self).spec_market(market_id@).id,
                            user,
                            amount,
                            prediction,
                            now,
                        ),
                    )
                    &&& final(self).protocol == old(self).protocol
                    &&& event == (PredictionPlaced {
                        market_id: old(self).spec_market(market_id@).id,
                        user: user,
                        amount: amount,
                        prediction: prediction,
                        timestamp: now,
                    })
                },
                Err(LedgerError::MissingEntry) => {
                    &&& !has_market(old(self).markets@, market_id@)
                    &&& final(self).same_state(*old(self))
                },
                Err(LedgerError::Engine(e)) => {
                    &&& has_market(old(self).markets@, market_id@)
                    &&& Some(e) == place_prediction_err(
                        old(self).spec_market(market_id@),
                        prior_stake_amount(old(self).predictions@, market_id@, user),
                        amount,
                        prediction,
                        now,
                    )
                    &&& final(self).same_state(*old(self))
                },
                Err(LedgerError::DuplicateEntry) => false,
            },
    {
        let idx = match self.find_market(market_id) {
            Some(i) => i,
            None => {
                return Err(LedgerError::MissingEntry);
            },
        };
        proof {
            lemma_market_index_unique(self.markets@, market_id@, idx as int);
        }
        let prior: u64 = match self.find_stake(market_id, user) {
            Some(k) => {
                proof {
                    lemma_stake_index_unique(self.predictions@, market_id@, user, k as int);
                }
                self.predictions[k].amount
            },
            None => 0,
        };
        let ghost old_ledger = *self;
        match engine::place_prediction(
            &mut self.markets[idx],
            prior,
            user,
            amount,
            prediction,
            now,
        ) {
            Ok((record, event)) => {
                let ghost mid_markets = self.markets@;
                let ghost old_records = self.predictions@;
                self.predictions.push(record);
                proof {
                    let id = old_ledger.markets@[idx as int].id@;
                    // The engine accepted, so the key was vacant: an
                    // existing record would have a positive amount.
                    if has_stake(old_records, market_id@, user) {
                        assert(old_records[stake_index(old_records, market_id@, user)].wf());
                    }
                    assert(!has_stake(old_records, market_id@, user));
                    assert forall|i: int|
                        0 <= i < mid_markets.len() implies {
                        &&& (#[trigger] mid_markets[i]).total_yes_amount == side_sum(
                            self.predictions@,
                            mid_markets[i].id@,
                            true,
                        )
                        &&& mid_markets[i].total_no_amount == side_sum(
                            self.predictions@,
                            mid_markets[i].id@,
                            false,
                        )
                        &&& mid_markets[i].total_participants == stake_count(
                            self.predictions@,
                            mid_markets[i].id@,
                        )
                    } by {
                        lemma_sums_push(old_records, record, mid_markets[i].id@, true);
                        lemma_sums_push(old_records, record, mid_markets[i].id@, false);
                        if i != idx as int {
                            assert(old_ledger.markets@[i] == mid_markets[i]);
                            assert(mid_markets[i].id@ != id);
                        }
                    }
                    assert forall|k: int|
                        0 <= k < self.predictions@.len() implies has_market(
                        self.markets@,
                        (#[trigger] self.predictions@[k]).market@,
                    ) by {
                        if k < old_records.len() {
                            let w = choose|i: int|
                                0 <= i < old_ledger.markets@.len() && old_ledger.markets@[i].id@
                                    == old_records[k].market@;
                            assert(self.markets@[w].id@ == old_records[k].market@);
                        } else {
                            assert(self.markets@[idx as int].id@ == record.market@);
                        }
                    }
                }
                Ok(event)
            },
            Err(e) => {
                proof {
                    assert(old_ledger.markets@.update(
                        idx as int,
                        old_ledger.markets@[idx as int],
                    ) =~= old_ledger.markets@);
                }
                Err(LedgerError::Engine(e))
            },
        }
    }

    /// Resolves the addressed market exactly once, at or after its
    /// deadline. The identity collaborator has proved the caller controls
    /// `authority`, which must be the market's stored resolver.
    pub fn resolve_market(
        &mut self,
        market_id: &String,
        authority: AccountId,
        outcome: bool,
        now: i64,
    ) -> (result: Result<MarketResolved, LedgerError>)
        requires
            old(self).wf(),
            has_market(old(self).markets@, market_id@) ==> authority == old(self).spec_market(
                market_id@,
            ).authority,
        ensures
            final(self).wf(),
            match result {
                Ok(event) => {
                    &&& has_market(old(self).markets@, market_id@)
                    &&& resolve_market_err(old(self).spec_market(market_id@), now) is None
                    &&& final(self).markets@ == old(self).markets@.update(
                        market_index(old(self).markets@, market_id@),
                        spec_resolved_market(old(self).spec_market(market_id@), outcome, now),
                    )
                    &&& final(self).predictions@ == old(self).predictions@
                    &&& final(self).protocol == old(self).protocol
                    &&& event == (MarketResolved {
                        market_id: old(self).spec_market(market_id@).id,
                        outcome: outcome,
                        total_yes_amount: old(self).spec_market(market_id@).total_yes_amount,
                        total_no_amount: old(self).spec_market(market_id@).total_no_amount,
                        timestamp: now,
                    })
                },
                Err(LedgerError::MissingEntry) => {
                    &&& !has_market(old(self).markets@, market_id@)
                    &&& final(self).same_state(*old(self))
                },
                Err(LedgerError::Engine(e)) => {
                    &&& has_market(old(self).markets@, market_id@)
                    &&& Some(e) == resolve_market_err(old(self).spec_market(market_id@), now)
                    &&& final(self).same_state(*old(self))
                },
                Err(LedgerError::DuplicateEntry) => false,
            },
    {
        let idx = match self.find_market(market_id) {
            Some(i) => i,
            None => {
                return Err(LedgerError::MissingEntry);
            },
        };
        proof {
            lemma_market_index_unique(self.markets@, market_id@, idx as int);
        }
        let ghost old_ledger = *self;
        match engine::resolve_market(&mut self.markets[idx], authority, outcome, now) {
            Ok(event) => {
                proof {
                    assert forall|i: int|
                        0 <= i < self.markets@.len() implies (#[trigger] self.markets@[i]).id@
                        == old_ledger.markets@[i].id@ && self.markets@[i].total_yes_amount
                        == old_ledger.markets@[i].total_yes_amount
                        && self.markets@[i].total_no_amount
                        == old_ledger.markets@[i].total_no_amount
                        && self.markets@[i].total_participants
                        == old_ledger.markets@[i].total_participants by {}
                    assert forall|k: int|
                        0 <= k < self.predictions@.len() implies has_market(
                        self.markets@,
                        (#[trigger] self.predictions@[k]).market@,
                    ) by {
                        let w = choose|i: int|
                            0 <= i < old_ledger.markets@.len() && old_ledger.markets@[i].id@
                                == self.predictions@[k].market@;
                        assert(self.markets@[w].id@ == self.predictions@[k].market@);
                    }
                }
                Ok(event)
            },
            Err(e) => {
                proof {
                    assert(old_ledger.markets@.update(
                        idx as int,
                        old_ledger.markets@[idx as int],
                    ) =~= old_ledger.markets@);
                }
                Err(LedgerError::Engine(e))
            },
        }
    }

    /// Pays the addressed participant's winning, unclaimed record its
    /// proportional share and marks it claimed. A losing record fails and
    /// stays unclaimed; a second claim fails and leaves the recorded
    /// winnings untouched.
    pub fn claim_winnings(&mut self, market_id: &String, user: AccountId, now: i64) -> (result:
        Result<WinningsClaimed, LedgerError>)
        requires
            old(self).wf(),
        ensures
            final(self).wf(),
            match result {
                Ok(event) => {
                    &&& has_market(old(self).markets@, market_id@)
                    &&& has_stake(old(self).predictions@, market_id@, user)
                    &&& claim_winnings_err(
                        old(self).spec_market(market_id@),
                        old(self).spec_stake(market_id@, user),
                    ) is None
                    &&& final(self).markets@ == old(self).markets@
                    &&& final(self).protocol == old(self).protocol
                    &&& final(self).predictions@ == old(self).predictions@.update(
                        stake_index(old(self).predictions@, market_id@, user),
                        spec_claimed_record(
                            old(self).spec_stake(market_id@, user),
                            spec_payout(
                                old(self).spec_stake(market_id@, user).amount,
                                old(self).spec_market(market_id@).total_yes_amount,
                                old(self).spec_market(market_id@).total_no_amount,
                                old(self).spec_market(market_id@).outcome->0,
                            ) as u64,
                        ),
                    )
                    &&& event == (WinningsClaimed {
                        market_id: old(self).spec_market(market_id@).id,
                        user: user,
                        amount: spec_payout(
                            old(self).spec_stake(market_id@, user).amount,
                            old(self).spec_market(market_id@).total_yes_amount,
                            old(self).spec_market(market_id@).total_no_amount,
                            old(self).spec_market(market_id@).outcome->0,
                        ) as u64,
                        timestamp: now,
                    })
                },
                Err(LedgerError::MissingEntry) => {
                    &&& !has_market(old(self).markets@, market_id@) || !has_stake(
                        old(self).predictions@,
                        market_id@,
                        user,
                    )
                    &&& final(self).same_state(*old(self))
                },
                Err(LedgerError::Engine(e)) => {
                    &&& has_market(old(self).markets@, market_id@)
                    &&& has_stake(old(self).predictions@, market_id@, user)
                    &&& Some(e) == claim_winnings_err(
                        old(self).spec_market(market_id@),
                        old(self).spec_stake(market_id@, user),
                    )
                    &&& final(self).same_state(*old(self))
                },
                Err(LedgerError::DuplicateEntry) => false,
            },
    {
        let idx = match self.find_market(market_id) {
            Some(i) => i,
            None => {
                return Err(LedgerError::MissingEntry);
            },
        };
        let k = match self.find_stake(market_id, user) {
            Some(k) => k,
            None => {
                return Err(LedgerError::MissingEntry);
            },
        };
        proof {
            lemma_market_index_unique(self.markets@, market_id@, idx as int);
            lemma_stake_index_unique(self.predictions@, market_id@, user, k as int);
        }
        let ghost old_ledger = *self;
        match engine::claim_winnings(&self.markets[idx], &mut self.predictions[k], now) {
            Ok(event) => {
                proof {
                    let updated = self.predictions@[k as int];
                    assert forall|i: int|
                        0 <= i < self.markets@.len() implies {
                        &&& (#[trigger] self.markets@[i]).total_yes_amount == side_sum(
                            self.predictions@,
                            self.markets@[i].id@,
                            true,
                        )
                        &&& self.markets@[i].total_no_amount == side_sum(
                            self.predictions@,
                            self.markets@[i].id@,
                            false,
                        )
                        &&& self.markets@[i].total_participants == stake_count(
                            self.predictions@,
                            self.markets@[i].id@,
                        )
                    } by {
                        lemma_sums_update_keeps(
                            old_ledger.predictions@,
                            k as int,
                            updated,
                            self.markets@[i].id@,
                            true,
                        );
                        lemma_sums_update_keeps(
                            old_ledger.predictions@,
                            k as int,
                            updated,
                            self.markets@[i].id@,
                            false,
                        );
                    }
                }
                Ok(event)
            },
            Err(e) => {
                proof {
                    assert(old_ledger.predictions@.update(
                        k as int,
                        old_ledger.predictions@[k as int],
                    ) =~= old_ledger.predictions@);
                }
                Err(LedgerError::Engine(e))
            },
        }
    }
}

/// What every winner of the market keyed `id` would be paid in all: the
/// payout formula summed over the unclaimed and claimed records on side
/// `outcome`, with the pools frozen at `yes` and `no`.
pub open spec fn payout_sum(
    records: Seq<UserPrediction>,
    id: Seq<char>,
    yes: u64,
    no: u64,
    outcome: bool,
) -> int
    decreases records.len(),
{
    if records.len() == 0 {
        0
    } else {
        payout_sum(records.drop_last(), id, yes, no, outcome) + if records.last().market@ == id
            && records.last().prediction == outcome {
            spec_payout(records.last().amount, yes, no, outcome)
        } else {
            0
        }
    }
}

/// Marking a record claimed (the only way records ever change) moves no
/// entitlement: `payout_sum` depends on keys, sides and amounts alone.
/// With the pools frozen at resolution, what the winners are owed in all
/// is therefore fixed from resolution on, claim by claim.
pub proof fn lemma_payout_sum_update_keeps(
    records: Seq<UserPrediction>,
    k: int,
    r: UserPrediction,
    id: Seq<char>,
    yes: u64,
    no: u64,
    outcome: bool,
)
    requires
        0 <= k < records.len(),
        r.market@ == records[k].market@,
        r.prediction == records[k].prediction,
        r.amount == records[k].amount,
    ensures
        payout_sum(records.update(k, r), id, yes, no, outcome) == payout_sum(
            records,
            id,
            yes,
            no,
            outcome,
        ),
    decreases records.len(),
{
    let u = records.update(k, r);
    if k == records.len() - 1 {
        assert(u.drop_last() =~= records.drop_last());
        assert(u.last() == r);
    } else {
        assert(u.drop_last() =~= records.drop_last().update(k, r));
        assert(u.last() == records.last());
        lemma_payout_sum_update_keeps(records.drop_last(), k, r, id, yes, no, outcome);
    }
}

/// The payouts of any set of winners stay within their own side's sum,
/// scaled to the whole pool: `payout_sum <= side_sum * (yes+no) / w`.
proof fn lemma_payout_sum_le(
    records: Seq<UserPrediction>,
    id: Seq<char>,
    yes: u64,
    no: u64,
    outcome: bool,
)
    requires
        (if outcome {
            yes
        } else {
            no
        }) > 0,
    ensures
        payout_sum(records, id, yes, no, outcome) <= side_sum(records, id, outcome) * (yes + no)
            / (if outcome {
            yes as int
        } else {
            no as int
        }),
    decreases records.len(),
{
    let w = if outcome {
        yes as int
    } else {
        no as int
    };
    let t = yes + no as int;
    if records.len() == 0 {
        vstd::arithmetic::div_mod::lemma_div_of0(w);
        assert(0 * t == 0);
    } else {
        let prefix = records.drop_last();
        let s = side_sum(prefix, id, outcome);
        lemma_payout_sum_le(prefix, id, yes, no, outcome);
        lemma_side_sum_nonnegative(prefix, id, outcome);
        if records.last().market@ == id && records.last().prediction == outcome {
            let a = records.last().amount as int;
            crate::payout::lemma_share_superadditive(s, a, t, w);
        }
    }
}

/// A side that sums to zero has no records at all (every record's amount
/// is positive), so it is owed nothing.
proof fn lemma_payout_sum_when_side_empty(
    records: Seq<UserPrediction>,
    id: Seq<char>,
    yes: u64,
    no: u64,
    outcome: bool,
)
    requires
        side_sum(records, id, outcome) == 0,
        forall|k: int| 0 <= k < records.len() ==> (#[trigger] records[k]).wf(),
    ensures
        payout_sum(records, id, yes, no, outcome) == 0,
    decreases records.len(),
{
    if records.len() > 0 {
        let prefix = records.drop_last();
        lemma_side_sum_nonnegative(prefix, id, outcome);
        assert(records.last() == records[records.len() - 1]);
        lemma_payout_sum_when_side_empty(prefix, id, yes, no, outcome);
    }
}

/// Conservation of pooled value: in a well-formed ledger, the payouts
/// owed to every winner of a market together never exceed the whole
/// pool, `total_yes_amount + total_no_amount`. The integer floor in each
/// share only leaves nonnegative dust behind.
pub proof fn lemma_winning_payouts_conserve_pool(ledger: Ledger, id: Seq<char>, outcome: bool)
    requires
        ledger.wf(),
        has_market(ledger.markets@, id),
    ensures
        0 <= payout_sum(
            ledger.predictions@,
            id,
            ledger.spec_market(id).total_yes_amount,
            ledger.spec_market(id).total_no_amount,
            outcome,
        ) <= ledger.spec_market(id).total_pool(),
{
    let m = ledger.spec_market(id);
    let yes = m.total_yes_amount;
    let no = m.total_no_amount;
    let w = if outcome {
        yes as int
    } else {
        no as int
    };
    let t = yes + no as int;
    assert(m.id@ == id);
    assert(side_sum(ledger.predictions@, id, outcome) == w);
    if w == 0 {
        lemma_payout_sum_when_side_empty(ledger.predictions@, id, yes, no, outcome);
    } else {
        lemma_payout_sum_nonnegative(ledger.predictions@, id, yes, no, outcome);
        lemma_payout_sum_le(ledger.predictions@, id, yes, no, outcome);
        crate::payout::lemma_share_bounded(w, t, w);
    }
}

/// With a nonzero winning pool, each winner is owed a nonnegative share.
proof fn lemma_payout_sum_nonnegative(
    records: Seq<UserPrediction>,
    id: Seq<char>,
    yes: u64,
    no: u64,
    outcome: bool,
)
    requires
        (if outcome {
            yes
        } else {
            no
        }) > 0,
    ensures
        0 <= payout_sum(records, id, yes, no, outcome),
    decreases records.len(),
{
    if records.len() > 0 {
        lemma_payout_sum_nonnegative(records.drop_last(), id, yes, no, outcome);
        if records.last().market@ == id && records.last().prediction == outcome {
            let w = if outcome {
                yes as int
            } else {
                no as int
            };
            crate::payout::lemma_share_nonnegative(
                records.last().amount as int,
                yes + no as int,
                w,
            );
        }
    }
}

} // verus!
