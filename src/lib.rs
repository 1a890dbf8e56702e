//! A ledger for group wagers: users hold a balance of bucks, join pooled
//! wagers, and a one-time settlement moves bucks from losers to winners.
//!
//! `model` holds the records, `settlement` the payout rules and the engine
//! that settles a resolved list of participants, `lifecycle` the decisions of
//! the user and wager operations, `ledger` an in-memory store on which every
//! operation runs end to end, and `laws` what holds across its operations.

pub mod laws;
pub mod ledger;
pub mod lifecycle;
pub mod model;
pub mod settlement;

pub use ledger::Ledger;
pub use lifecycle::{decide_create_user, decide_join, validate_stake, JoinOutcome};
pub use model::{LedgerError, Participation, User, Wager, STARTING_BALANCE};
pub use settlement::{classify, contains_id, credit, debit, payout, settle, Role, Settlement};
