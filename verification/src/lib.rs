//! A prediction-market ledger: binary-outcome markets with pooled stakes,
//! authoritative resolution, and proportional, overflow-checked payouts.
//!
//! The crate is a deterministic state machine. Storage, identity
//! verification, value transfer, the clock and the event sink are external
//! collaborators: every operation takes the entities it touches (or the
//! [`ledger::Ledger`] that owns them) together with the current time, and
//! returns either the event to emit or a typed failure, never mutating
//! state on failure.

pub mod engine;
pub mod errors;
pub mod events;
pub mod ledger;
pub mod payout;
pub mod state;
