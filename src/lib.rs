//! A time-locked custody ledger: an account deposits an amount together with
//! a release time, and may reclaim the whole amount once that time is reached.
//!
//! The ledger is a pure state machine. The host supplies the clock reading,
//! moves the asset and persists the state; every operation here states in its
//! contract how the ledger changes and which transfer the host is to make.

mod account;
mod laws;
mod ledger;
mod model;
mod types;

pub use account::AccountId;
pub use laws::{
    lemma_listed_iff_present, lemma_lock_live_account_refused, lemma_lock_then_get,
    lemma_lock_unlock_round_trip, lemma_lock_window, lemma_steps_keep_consistent,
    lemma_unlock_outcomes,
};
pub use ledger::Escrow;
pub use model::{accounts_of, ledger_of, lock_step, unlock_step, EscrowModel};
pub use types::{
    describes, lockup_of, EscrowDetails, EscrowLockEvent, EscrowUnlockEvent, EscrowedBalance,
    Errors, Lockup,
};
