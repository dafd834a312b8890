use vstd::prelude::*;

use crate::account::AccountId;

verus! {

/// A live escrow: `amount` of the asset held for `account` until `claim_after`.
#[derive(Debug)]
pub struct EscrowedBalance {
    pub account: AccountId,
    pub amount: i128,
    pub claim_after: u64,
}

/// Published when an escrow is created; the host moves `amount` into custody.
#[derive(Debug, Clone, Copy, PartialEq, Eq, Structural)]
pub struct EscrowLockEvent {
    pub amount: i128,
    pub claim_after: u64,
}

/// Published when an escrow is released; the host moves `amount` back to the
/// account.
#[derive(Debug, Clone, Copy, PartialEq, Eq, Structural)]
pub struct EscrowUnlockEvent {
    pub amount: i128,
}

/// What a query reports of a live escrow at a given clock reading.
#[derive(Debug)]
pub struct EscrowDetails {
    pub account: AccountId,
    pub amount: i128,
    pub claim_after: u64,
    pub can_unlock: bool,
}

/// The recoverable outcomes of a refused operation.
#[derive(Debug, Clone, Copy, PartialEq, Eq, Structural)]
pub enum Errors {
    ClaimAfterInPast,
    LockupTooLong,
    TooEarlyToUnlock,
    EscrowNotFound,
    EscrowAlreadyExists,
}

/// The amount and release time of a live escrow, as the ledger model holds it.
pub type Lockup = (i128, u64);

/// The ledger model's value for a stored balance.
pub open spec fn lockup_of(e: EscrowedBalance) -> Lockup {
    (e.amount, e.claim_after)
}

/// `d` reports `account`'s escrow `l` as seen at clock reading `now`.
pub open spec fn describes(d: EscrowDetails, account: Seq<u8>, l: Lockup, now: u64) -> bool {
    &&& d.account@ == account
    &&& d.amount == l.0
    &&& d.claim_after == l.1
    &&& d.can_unlock == (now >= l.1)
}

impl EscrowDetails {
    /// The report of `e` at clock reading `now`.
    pub fn of_balance(e: &EscrowedBalance, now: u64) -> (r: EscrowDetails)
        ensures
            describes(r, e.account@, lockup_of(*e), now),
    {
        EscrowDetails {
            account: e.account.duplicate(),
            amount: e.amount,
            claim_after: e.claim_after,
            can_unlock: now >= e.claim_after,
        }
    }
}

} // verus!
