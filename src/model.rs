use vstd::prelude::*;

use crate::types::{lockup_of, EscrowLockEvent, EscrowUnlockEvent, EscrowedBalance, Errors, Lockup};

verus! {

/// The accounts of `s`, in order.
pub open spec fn accounts_of(s: Seq<EscrowedBalance>) -> Seq<Seq<u8>> {
    s.map_values(|e: EscrowedBalance| e.account@)
}

/// The map from account to lockup that the balances `s` describe; a later
/// balance for an account shadows an earlier one.
pub open spec fn ledger_of(s: Seq<EscrowedBalance>) -> Map<Seq<u8>, Lockup>
    decreases s.len(),
{
    if s.len() == 0 {
        Map::empty()
    } else {
        ledger_of(s.drop_last()).insert(s.last().account@, lockup_of(s.last()))
    }
}

pub proof fn lemma_accounts_drop_last(s: Seq<EscrowedBalance>)
    requires
        s.len() > 0,
    ensures
        accounts_of(s.drop_last()) == accounts_of(s).drop_last(),
{
    assert(accounts_of(s.drop_last()) =~= accounts_of(s).drop_last());
}

/// An account has a lockup exactly when it is among the balances.
pub proof fn lemma_ledger_domain_all(s: Seq<EscrowedBalance>)
    ensures
        forall|a: Seq<u8>| ledger_of(s).contains_key(a) <==> #[trigger] accounts_of(s).contains(a),
{
    assert forall|a: Seq<u8>| ledger_of(s).contains_key(a) <==> #[trigger] accounts_of(s).contains(
        a,
    ) by {
        lemma_ledger_domain(s, a);
    }
}

pub proof fn lemma_ledger_domain(s: Seq<EscrowedBalance>, a: Seq<u8>)
    ensures
        ledger_of(s).contains_key(a) <==> accounts_of(s).contains(a),
    decreases s.len(),
{
    if s.len() > 0 {
        let t = s.drop_last();
        lemma_ledger_domain(t, a);
        lemma_accounts_drop_last(s);
        let ks = accounts_of(s);
        if ks.contains(a) && a != s.last().account@ {
            let i = choose|i: int| 0 <= i < ks.len() && ks[i] == a;
            assert(i != ks.len() - 1);
            assert(accounts_of(t)[i] == a);
        }
        if accounts_of(t).contains(a) {
            let i = choose|i: int| 0 <= i < accounts_of(t).len() && accounts_of(t)[i] == a;
            assert(ks[i] == a);
        }
        if a == s.last().account@ {
            assert(ks[ks.len() - 1] == a);
        }
    }
}

/// With no account listed twice, each balance gives its account's lockup.
pub proof fn lemma_ledger_entry(s: Seq<EscrowedBalance>, i: int)
    requires
        accounts_of(s).no_duplicates(),
        0 <= i < s.len(),
    ensures
        ledger_of(s).contains_key(s[i].account@),
        ledger_of(s)[s[i].account@] == lockup_of(s[i]),
    decreases s.len(),
{
    if i < s.len() - 1 {
        let t = s.drop_last();
        lemma_accounts_drop_last(s);
        assert(accounts_of(s)[i] != accounts_of(s)[s.len() - 1]);
        assert(t[i] == s[i]);
        lemma_ledger_entry(t, i);
    }
}

/// With no account listed twice, dropping a balance drops its account from
/// the map and nothing else.
pub proof fn lemma_ledger_remove(s: Seq<EscrowedBalance>, i: int)
    requires
        accounts_of(s).no_duplicates(),
        0 <= i < s.len(),
    ensures
        ledger_of(s.remove(i)) == ledger_of(s).remove(s[i].account@),
    decreases s.len(),
{
    let t = s.drop_last();
    let k = s[i].account@;
    lemma_accounts_drop_last(s);
    if i == s.len() - 1 {
        assert(s.remove(i) =~= t);
        lemma_ledger_domain(t, k);
        if accounts_of(t).contains(k) {
            let j = choose|j: int| 0 <= j < accounts_of(t).len() && accounts_of(t)[j] == k;
            assert(accounts_of(s)[j] == accounts_of(s)[i]);
        }
        assert(ledger_of(s).remove(k) =~= ledger_of(t));
    } else {
        assert(s.remove(i) =~= t.remove(i).push(s.last()));
        assert(s.remove(i).drop_last() =~= t.remove(i));
        assert(t[i] == s[i]);
        lemma_ledger_remove(t, i);
        assert(accounts_of(s)[i] != accounts_of(s)[s.len() - 1]);
        assert(ledger_of(s.remove(i)) =~= ledger_of(s).remove(k));
    }
}

/// What an escrow ledger is: its configuration, its active-account index and
/// its live escrows by account.
pub struct EscrowModel {
    pub asset: Seq<u8>,
    pub max_lockup: u64,
    pub index: Seq<Seq<u8>>,
    pub ledger: Map<Seq<u8>, Lockup>,
}

impl EscrowModel {
    /// The index lists each account at most once, and lists exactly the
    /// accounts that have a live escrow.
    pub open spec fn consistent(self) -> bool {
        &&& self.index.no_duplicates()
        &&& forall|a: Seq<u8>| self.ledger.contains_key(a) <==> #[trigger] self.index.contains(a)
    }
}

/// The outcome of locking `amount` for `account` until `claim_after` at clock
/// reading `now`: the next ledger and the result.
pub open spec fn lock_step(
    s: EscrowModel,
    account: Seq<u8>,
    amount: i128,
    claim_after: u64,
    now: u64,
) -> (EscrowModel, Result<EscrowLockEvent, Errors>) {
    if claim_after <= now {
        (s, Err(Errors::ClaimAfterInPast))
    } else if claim_after - now > s.max_lockup {
        (s, Err(Errors::LockupTooLong))
    } else if s.ledger.contains_key(account) {
        (s, Err(Errors::EscrowAlreadyExists))
    } else {
        (
            EscrowModel {
                ledger: s.ledger.insert(account, (amount, claim_after)),
                index: s.index.push(account),
                ..s
            },
            Ok(EscrowLockEvent { amount, claim_after }),
        )
    }
}

/// The outcome of releasing `account`'s escrow at clock reading `now`: the
/// next ledger and the result.
pub open spec fn unlock_step(s: EscrowModel, account: Seq<u8>, now: u64) -> (
    EscrowModel,
    Result<EscrowUnlockEvent, Errors>,
) {
    if !s.ledger.contains_key(account) {
        (s, Err(Errors::EscrowNotFound))
    } else if now < s.ledger[account].1 {
        (s, Err(Errors::TooEarlyToUnlock))
    } else {
        (
            EscrowModel {
                ledger: s.ledger.remove(account),
                index: s.index.remove(s.index.index_of(account)),
                ..s
            },
            Ok(EscrowUnlockEvent { amount: s.ledger[account].0 }),
        )
    }
}

} // verus!
