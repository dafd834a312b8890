use vstd::prelude::*;

use crate::account::AccountId;
use crate::model::{
    accounts_of, ledger_of, lemma_accounts_drop_last, lemma_ledger_domain, lemma_ledger_domain_all,
    lemma_ledger_entry, lemma_ledger_remove, lock_step, unlock_step, EscrowModel,
};
use crate::types::{
    describes, EscrowDetails, EscrowLockEvent, EscrowUnlockEvent, EscrowedBalance, Errors,
};

verus! {

/// The escrow ledger: the configuration fixed at creation (the asset and the
/// longest permitted lockup) and the live balances, one per account, in the
/// order in which they were created.
#[derive(Debug)]
pub struct Escrow {
    token: AccountId,
    max_lockup_duration: u64,
    balances: Vec<EscrowedBalance>,
}

impl View for Escrow {
    type V = EscrowModel;

    closed spec fn view(&self) -> EscrowModel {
        EscrowModel {
            asset: self.token@,
            max_lockup: self.max_lockup_duration,
            index: accounts_of(self.balances@),
            ledger: ledger_of(self.balances@),
        }
    }
}

impl Escrow {
    /// The index and the live escrows agree.
    pub open spec fn wf(&self) -> bool {
        self@.consistent()
    }

    /// The model of a ledger whose balances list each account at most once is
    /// consistent.
    proof fn lemma_consistent(&self)
        requires
            accounts_of(self.balances@).no_duplicates(),
        ensures
            self.wf(),
    {
        lemma_ledger_domain_all(self.balances@);
    }

    /// An empty ledger for the asset `token`.
    pub fn new(token: AccountId, max_lockup_duration: u64) -> (r: Escrow)
        ensures
            r.wf(),
            r@ == (EscrowModel {
                asset: token@,
                max_lockup: max_lockup_duration,
                index: Seq::empty(),
                ledger: Map::empty(),
            }),
    {
        let r = Escrow { token, max_lockup_duration, balances: Vec::new() };
        assert(accounts_of(r.balances@) =~= Seq::<Seq<u8>>::empty());
        proof {
            r.lemma_consistent();
        }
        r
    }

    /// A ledger holding `balances`, in that order, as a host that persists them
    /// hands them back; `None` when an account is listed twice.
    pub fn restore(token: AccountId, max_lockup_duration: u64, balances: Vec<EscrowedBalance>) -> (r:
        Option<Escrow>)
        ensures
            r is Some <==> accounts_of(balances@).no_duplicates(),
            r matches Some(e) ==> e.wf() && e@ == (EscrowModel {
                asset: token@,
                max_lockup: max_lockup_duration,
                index: accounts_of(balances@),
                ledger: ledger_of(balances@),
            }),
    {
        let ghost keys = accounts_of(balances@);
        let n = balances.len();
        let mut i: usize = 0;
        while i < n
            invariant
                n == balances@.len(),
                keys == accounts_of(balances@),
                i <= n,
                forall|p: int, q: int| 0 <= p < q < i ==> keys[p] != keys[q],
            decreases n - i,
        {
            let mut j: usize = 0;
            while j < i
                invariant
                    n == balances@.len(),
                    keys == accounts_of(balances@),
                    j <= i < n,
                    forall|p: int| 0 <= p < j ==> keys[p] != keys[i as int],
                decreases i - j,
            {
                if balances[j].account.same(&balances[i].account) {
                    assert(keys[j as int] == keys[i as int]);
                    return None;
                }
                j = j + 1;
            }
            i = i + 1;
        }
        let r = Escrow { token, max_lockup_duration, balances };
        proof {
            r.lemma_consistent();
        }
        Some(r)
    }

    /// The asset under custody.
    pub fn token(&self) -> (r: &AccountId)
        ensures
            r@ == self@.asset,
    {
        &self.token
    }

    /// The longest permitted interval between locking and release.
    pub fn max_lockup_duration(&self) -> (r: u64)
        ensures
            r == self@.max_lockup,
    {
        self.max_lockup_duration
    }

    /// The live balances in index order, as a host persists them.
    pub fn balances(&self) -> (r: &Vec<EscrowedBalance>)
        ensures
            accounts_of(r@) == self@.index,
            ledger_of(r@) == self@.ledger,
    {
        &self.balances
    }

    /// The position of `account` among the balances, if it has one.
    fn position(&self, account: &AccountId) -> (r: Option<usize>)
        ensures
            match r {
                Some(i) => i < self.balances@.len() && self.balances@[i as int].account@
                    == account@,
                None => !self@.index.contains(account@),
            },
    {
        let mut i: usize = 0;
        while i < self.balances.len()
            invariant
                i <= self.balances@.len(),
                forall|j: int| 0 <= j < i ==> self@.index[j] != account@,
            decreases self.balances@.len() - i,
        {
            if self.balances[i].account.same(account) {
                return Some(i);
            }
            i = i + 1;
        }
        None
    }

    /// Places `amount` of the asset in escrow for `account` until `claim_after`.
    ///
    /// The checks run in order: a release time not after `now`, then a lockup
    /// longer than the configured maximum, then an escrow already live for the
    /// account. On success the ledger gains the escrow, the account is appended
    /// to the index, and the returned event says what the host moves into
    /// custody. A refused call leaves the ledger as it was.
    pub fn lock(&mut self, account: AccountId, amount: i128, claim_after: u64, now: u64) -> (r:
        Result<EscrowLockEvent, Errors>)
        requires
            old(self).wf(),
        ensures
            final(self).wf(),
            (final(self)@, r) == lock_step(old(self)@, account@, amount, claim_after, now),
    {
        if claim_after <= now {
            return Err(Errors::ClaimAfterInPast);
        }
        if claim_after - now > self.max_lockup_duration {
            return Err(Errors::LockupTooLong);
        }
        proof {
            lemma_ledger_domain(self.balances@, account@);
        }
        if let Some(i) = self.position(&account) {
            assert(self@.index[i as int] == account@);
            return Err(Errors::EscrowAlreadyExists);
        }
        let ghost before = self.balances@;
        self.balances.push(EscrowedBalance { account, amount, claim_after });
        proof {
            assert(self.balances@.drop_last() == before);
            lemma_accounts_drop_last(self.balances@);
            assert(accounts_of(self.balances@) =~= accounts_of(before).push(account@));
            self.lemma_consistent();
        }
        Ok(EscrowLockEvent { amount, claim_after })
    }

    /// Releases `account`'s escrow.
    ///
    /// Refused with `EscrowNotFound` when the account has no live escrow, and
    /// with `TooEarlyToUnlock` while `now` is before its release time; release
    /// is allowed from the release time on. On success the escrow leaves the
    /// ledger, the account leaves the index (the others keep their order), and
    /// the returned event says what the host moves back to the account. A
    /// refused call leaves the ledger as it was.
    pub fn unlock(&mut self, account: &AccountId, now: u64) -> (r: Result<EscrowUnlockEvent, Errors>)
        requires
            old(self).wf(),
        ensures
            final(self).wf(),
            (final(self)@, r) == unlock_step(old(self)@, account@, now),
    {
        proof {
            lemma_ledger_domain(self.balances@, account@);
        }
        let i = match self.position(account) {
            Some(i) => i,
            None => {
                return Err(Errors::EscrowNotFound);
            },
        };
        proof {
            lemma_ledger_entry(self.balances@, i as int);
        }
        if now < self.balances[i].claim_after {
            return Err(Errors::TooEarlyToUnlock);
        }
        let ghost before = self.balances@;
        let removed = self.balances.remove(i);
        proof {
            lemma_ledger_remove(before, i as int);
            assert(accounts_of(self.balances@) =~= accounts_of(before).remove(i as int));
            assert(accounts_of(before)[i as int] == account@);
            assert(accounts_of(before).index_of(account@) == i);
            self.lemma_consistent();
        }
        Ok(EscrowUnlockEvent { amount: removed.amount })
    }

    /// `account`'s escrow as seen at clock reading `now`, or `None` when it has
    /// none.
    pub fn get_escrow(&self, account: &AccountId, now: u64) -> (r: Option<EscrowDetails>)
        requires
            self.wf(),
        ensures
            r is None <==> !self@.ledger.contains_key(account@),
            r matches Some(d) ==> describes(d, account@, self@.ledger[account@], now),
    {
        proof {
            lemma_ledger_domain(self.balances@, account@);
        }
        match self.position(account) {
            Some(i) => {
                proof {
                    lemma_ledger_entry(self.balances@, i as int);
                }
                Some(EscrowDetails::of_balance(&self.balances[i], now))
            },
            None => None,
        }
    }

    /// Every live escrow as seen at clock reading `now`, in index order.
    pub fn get_escrows(&self, now: u64) -> (r: Vec<EscrowDetails>)
        requires
            self.wf(),
        ensures
            r@.len() == self@.index.len(),
            forall|i: int|
                0 <= i < r@.len() ==> describes(
                    #[trigger] r@[i],
                    self@.index[i],
                    self@.ledger[self@.index[i]],
                    now,
                ),
    {
        let mut details: Vec<EscrowDetails> = Vec::new();
        let mut i: usize = 0;
        while i < self.balances.len()
            invariant
                self.wf(),
                i <= self.balances@.len(),
                details@.len() == i,
                forall|j: int|
                    0 <= j < i ==> describes(
                        #[trigger] details@[j],
                        self@.index[j],
                        self@.ledger[self@.index[j]],
                        now,
                    ),
            decreases self.balances@.len() - i,
        {
            proof {
                lemma_ledger_entry(self.balances@, i as int);
            }
            details.push(EscrowDetails::of_balance(&self.balances[i], now));
            i = i + 1;
        }
        details
    }
}

} // verus!
