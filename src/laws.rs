use vstd::prelude::*;

use crate::model::{lock_step, unlock_step, EscrowModel};
use crate::types::{describes, EscrowDetails, EscrowLockEvent, EscrowUnlockEvent, Errors};

verus! {

/// Right after a successful lock of `amount` until `claim_after`, a query for
/// the account at the same clock reading reports exactly that amount and
/// release time, not yet claimable.
pub proof fn lemma_lock_then_get(
    s: EscrowModel,
    account: Seq<u8>,
    amount: i128,
    claim_after: u64,
    now: u64,
)
    requires
        s.consistent(),
        lock_step(s, account, amount, claim_after, now).1 is Ok,
    ensures
        ({
            let next = lock_step(s, account, amount, claim_after, now).0;
            &&& next.ledger.contains_key(account)
            &&& forall|d: EscrowDetails|
                #[trigger] describes(d, account, next.ledger[account], now) ==> {
                    &&& d.account@ == account
                    &&& d.amount == amount
                    &&& d.claim_after == claim_after
                    &&& d.can_unlock == (now >= claim_after)
                    &&& !d.can_unlock
                }
        }),
{
}

/// Locking an account that has a live escrow, with a release time inside the
/// permitted window, is refused with `EscrowAlreadyExists` whatever the amount
/// and release time, and changes nothing.
pub proof fn lemma_lock_live_account_refused(
    s: EscrowModel,
    account: Seq<u8>,
    amount: i128,
    claim_after: u64,
    now: u64,
)
    requires
        s.ledger.contains_key(account),
        now < claim_after,
        claim_after - now <= s.max_lockup,
    ensures
        lock_step(s, account, amount, claim_after, now) == (s, Err::<EscrowLockEvent, Errors>(
            Errors::EscrowAlreadyExists,
        )),
{
}

/// The release time decides a lock on an account without a live escrow: not
/// after `now` is refused with `ClaimAfterInPast`, further than the maximum
/// lockup from `now` with `LockupTooLong`, and anything in between succeeds.
pub proof fn lemma_lock_window(
    s: EscrowModel,
    account: Seq<u8>,
    amount: i128,
    claim_after: u64,
    now: u64,
)
    requires
        !s.ledger.contains_key(account),
    ensures
        claim_after <= now ==> lock_step(s, account, amount, claim_after, now).1 == Err::<
            EscrowLockEvent,
            Errors,
        >(Errors::ClaimAfterInPast),
        now < claim_after && claim_after - now > s.max_lockup ==> lock_step(
            s,
            account,
            amount,
            claim_after,
            now,
        ).1 == Err::<EscrowLockEvent, Errors>(Errors::LockupTooLong),
        now < claim_after && claim_after - now <= s.max_lockup ==> lock_step(
            s,
            account,
            amount,
            claim_after,
            now,
        ).1 == Ok::<EscrowLockEvent, Errors>(EscrowLockEvent { amount, claim_after }),
{
}

/// Releasing an account with no live escrow is refused with `EscrowNotFound`;
/// releasing one before its release time with `TooEarlyToUnlock`; from the
/// release time on it succeeds and hands back the whole amount.
pub proof fn lemma_unlock_outcomes(s: EscrowModel, account: Seq<u8>, now: u64)
    ensures
        !s.ledger.contains_key(account) ==> unlock_step(s, account, now).1 == Err::<
            EscrowUnlockEvent,
            Errors,
        >(Errors::EscrowNotFound),
        s.ledger.contains_key(account) && now < s.ledger[account].1 ==> unlock_step(
            s,
            account,
            now,
        ).1 == Err::<EscrowUnlockEvent, Errors>(Errors::TooEarlyToUnlock),
        s.ledger.contains_key(account) && now >= s.ledger[account].1 ==> unlock_step(
            s,
            account,
            now,
        ).1 == Ok::<EscrowUnlockEvent, Errors>(EscrowUnlockEvent { amount: s.ledger[account].0 }),
{
}

/// Every step keeps the index and the live escrows in agreement, whether it
/// succeeds or is refused.
pub proof fn lemma_steps_keep_consistent(
    s: EscrowModel,
    account: Seq<u8>,
    amount: i128,
    claim_after: u64,
    now: u64,
)
    requires
        s.consistent(),
    ensures
        lock_step(s, account, amount, claim_after, now).0.consistent(),
        unlock_step(s, account, now).0.consistent(),
{
    let next = lock_step(s, account, amount, claim_after, now).0;
    if lock_step(s, account, amount, claim_after, now).1 is Ok {
        assert forall|i: int, j: int|
            0 <= i < next.index.len() && 0 <= j < next.index.len() && i != j implies next.index[i]
            != next.index[j] by {
            if j == s.index.len() && next.index[i] == account {
                assert(s.index[i] == account);
                assert(s.index.contains(account));
            }
            if i == s.index.len() && next.index[j] == account {
                assert(s.index[j] == account);
                assert(s.index.contains(account));
            }
        }
        assert forall|a: Seq<u8>| next.ledger.contains_key(a) <==> #[trigger] next.index.contains(
            a,
        ) by {
            if a != account && next.index.contains(a) {
                let i = choose|i: int| 0 <= i < next.index.len() && next.index[i] == a;
                assert(s.index[i] == a);
            }
            if s.index.contains(a) {
                let i = choose|i: int| 0 <= i < s.index.len() && s.index[i] == a;
                assert(next.index[i] == a);
            }
            if a == account {
                assert(next.index[next.index.len() - 1] == a);
            }
        }
    }
    let after = unlock_step(s, account, now).0;
    if unlock_step(s, account, now).1 is Ok {
        let k = s.index.index_of(account);
        assert(s.index.contains(account));
        assert(0 <= k < s.index.len() && s.index[k] == account);
        assert forall|a: Seq<u8>| after.ledger.contains_key(a) <==> #[trigger] after.index.contains(
            a,
        ) by {
            if after.index.contains(a) {
                let i = choose|i: int| 0 <= i < after.index.len() && after.index[i] == a;
                if i < k {
                    assert(s.index[i] == a);
                } else {
                    assert(s.index[i + 1] == a);
                }
            }
            if a != account && s.index.contains(a) {
                let i = choose|i: int| 0 <= i < s.index.len() && s.index[i] == a;
                if i < k {
                    assert(after.index[i] == a);
                } else {
                    assert(after.index[i - 1] == a);
                }
            }
        }
    }
}

/// In a consistent ledger the accounts that a listing of all escrows reports
/// are exactly those for which a query finds an escrow.
pub proof fn lemma_listed_iff_present(s: EscrowModel)
    requires
        s.consistent(),
    ensures
        s.index.to_set() == s.ledger.dom(),
{
    assert(s.index.to_set() =~= s.ledger.dom());
}

/// Locking an account and then, with the clock unchanged, listing the escrows
/// shows the account exactly once; releasing it afterwards leaves it neither
/// listed nor found.
pub proof fn lemma_lock_unlock_round_trip(
    s: EscrowModel,
    account: Seq<u8>,
    amount: i128,
    claim_after: u64,
    now: u64,
    later: u64,
)
    requires
        s.consistent(),
        lock_step(s, account, amount, claim_after, now).1 is Ok,
        unlock_step(lock_step(s, account, amount, claim_after, now).0, account, later).1 is Ok,
    ensures
        ({
            let locked = lock_step(s, account, amount, claim_after, now).0;
            let released = unlock_step(locked, account, later).0;
            &&& locked.index.contains(account)
            &&& forall|i: int, j: int|
                0 <= i < locked.index.len() && 0 <= j < locked.index.len() && locked.index[i]
                    == account && locked.index[j] == account ==> i == j
            &&& !released.index.contains(account)
            &&& !released.ledger.contains_key(account)
        }),
{
    let locked = lock_step(s, account, amount, claim_after, now).0;
    lemma_steps_keep_consistent(s, account, amount, claim_after, now);
    lemma_steps_keep_consistent(locked, account, amount, claim_after, later);
    assert(locked.index[locked.index.len() - 1] == account);
}

} // verus!
