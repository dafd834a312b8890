use timelock_escrow::{
    AccountId, Escrow, EscrowLockEvent, EscrowUnlockEvent, EscrowedBalance, Errors,
};

fn acct(name: &str) -> AccountId {
    AccountId::new(name.as_bytes().to_vec())
}

fn ledger(max: u64) -> Escrow {
    Escrow::new(acct("ASSET"), max)
}

#[test]
fn lock_unlock_scenario() {
    let mut e = ledger(1000);
    assert_eq!(
        e.lock(acct("A"), 200, 1400, 500),
        Ok(EscrowLockEvent { amount: 200, claim_after: 1400 })
    );
    // A release time 1100 past `now` is outside the window, which is checked
    // before the live escrow.
    assert_eq!(e.lock(acct("A"), 50, 1600, 500), Err(Errors::LockupTooLong));
    assert_eq!(e.lock(acct("A"), 50, 1500, 500), Err(Errors::EscrowAlreadyExists));
    assert_eq!(e.unlock(&acct("A"), 1399), Err(Errors::TooEarlyToUnlock));
    assert_eq!(e.unlock(&acct("A"), 1400), Ok(EscrowUnlockEvent { amount: 200 }));
    assert!(e.get_escrow(&acct("A"), 1400).is_none());
    assert!(e.get_escrows(1400).is_empty());
}

#[test]
fn lockup_window_edge() {
    let mut e = ledger(1000);
    assert_eq!(e.lock(acct("B"), 10, 1501, 500), Err(Errors::LockupTooLong));
    assert_eq!(
        e.lock(acct("B"), 10, 1500, 500),
        Ok(EscrowLockEvent { amount: 10, claim_after: 1500 })
    );
}

#[test]
fn lock_then_get_reports_deposit() {
    let mut e = ledger(100);
    assert!(e.lock(acct("C"), 42, 150, 120).is_ok());
    let d = e.get_escrow(&acct("C"), 120).unwrap();
    assert_eq!(d.account.bytes, b"C".to_vec());
    assert_eq!(d.amount, 42);
    assert_eq!(d.claim_after, 150);
    assert!(!d.can_unlock);
    assert!(e.get_escrow(&acct("C"), 150).unwrap().can_unlock);
    assert!(!e.get_escrow(&acct("C"), 149).unwrap().can_unlock);
}

#[test]
fn lock_release_time_not_after_now() {
    let mut e = ledger(100);
    assert_eq!(e.lock(acct("D"), 1, 50, 50), Err(Errors::ClaimAfterInPast));
    assert_eq!(e.lock(acct("D"), 1, 10, 50), Err(Errors::ClaimAfterInPast));
    assert_eq!(e.lock(acct("D"), 1, 0, 0), Err(Errors::ClaimAfterInPast));
    assert!(e.get_escrows(50).is_empty());
}

#[test]
fn lock_largest_values() {
    let mut e = ledger(u64::MAX);
    assert_eq!(
        e.lock(acct("E"), i128::MAX, u64::MAX, 0),
        Ok(EscrowLockEvent { amount: i128::MAX, claim_after: u64::MAX })
    );
    assert_eq!(e.unlock(&acct("E"), u64::MAX - 1), Err(Errors::TooEarlyToUnlock));
    assert_eq!(e.unlock(&acct("E"), u64::MAX), Ok(EscrowUnlockEvent { amount: i128::MAX }));
}

#[test]
fn zero_max_lockup_admits_nothing() {
    let mut e = ledger(0);
    assert_eq!(e.lock(acct("F"), 5, 11, 10), Err(Errors::LockupTooLong));
}

#[test]
fn non_positive_amount_passes_through() {
    let mut e = ledger(10);
    assert_eq!(e.lock(acct("G"), 0, 5, 1), Ok(EscrowLockEvent { amount: 0, claim_after: 5 }));
    assert_eq!(e.lock(acct("H"), -3, 5, 1), Ok(EscrowLockEvent { amount: -3, claim_after: 5 }));
    assert_eq!(e.unlock(&acct("H"), 7), Ok(EscrowUnlockEvent { amount: -3 }));
}

#[test]
fn unlock_without_escrow() {
    let mut e = ledger(10);
    assert_eq!(e.unlock(&acct("I"), 0), Err(Errors::EscrowNotFound));
    assert!(e.lock(acct("J"), 3, 5, 1).is_ok());
    assert_eq!(e.unlock(&acct("I"), 9), Err(Errors::EscrowNotFound));
    assert_eq!(e.unlock(&acct("J"), 9), Ok(EscrowUnlockEvent { amount: 3 }));
    assert_eq!(e.unlock(&acct("J"), 9), Err(Errors::EscrowNotFound));
}

#[test]
fn round_trip_listing() {
    let mut e = ledger(100);
    assert!(e.lock(acct("K"), 8, 60, 10).is_ok());
    let listed = e.get_escrows(10);
    assert_eq!(listed.iter().filter(|d| d.account.bytes == b"K".to_vec()).count(), 1);
    assert!(e.unlock(&acct("K"), 60).is_ok());
    assert!(e.get_escrows(60).iter().all(|d| d.account.bytes != b"K".to_vec()));
    assert!(e.get_escrow(&acct("K"), 60).is_none());
}

#[test]
fn listing_matches_queries() {
    let mut e = ledger(100);
    for (name, amount, t) in [("L", 1, 20), ("M", 2, 30), ("N", 3, 40)] {
        assert!(e.lock(acct(name), amount, t, 10).is_ok());
    }
    assert!(e.unlock(&acct("M"), 35).is_ok());
    let listed = e.get_escrows(35);
    let names: Vec<Vec<u8>> = listed.iter().map(|d| d.account.bytes.clone()).collect();
    assert_eq!(names, vec![b"L".to_vec(), b"N".to_vec()]);
    assert_eq!(listed[0].amount, 1);
    assert!(listed[0].can_unlock);
    assert_eq!(listed[1].claim_after, 40);
    assert!(!listed[1].can_unlock);
    for name in ["L", "M", "N", "O"] {
        let present = e.get_escrow(&acct(name), 35).is_some();
        assert_eq!(present, names.contains(&name.as_bytes().to_vec()));
    }
}

#[test]
fn restore_round_trip() {
    let mut e = ledger(100);
    assert!(e.lock(acct("P"), 4, 50, 10).is_ok());
    assert!(e.lock(acct("Q"), 5, 60, 10).is_ok());
    let balances: Vec<EscrowedBalance> = e
        .balances()
        .iter()
        .map(|b| EscrowedBalance {
            account: b.account.duplicate(),
            amount: b.amount,
            claim_after: b.claim_after,
        })
        .collect();
    let mut r = Escrow::restore(e.token().duplicate(), e.max_lockup_duration(), balances).unwrap();
    assert_eq!(r.token().bytes, b"ASSET".to_vec());
    assert_eq!(r.max_lockup_duration(), 100);
    assert_eq!(r.get_escrows(10).len(), 2);
    assert_eq!(r.lock(acct("P"), 1, 20, 10), Err(Errors::EscrowAlreadyExists));
    assert_eq!(r.unlock(&acct("Q"), 60), Ok(EscrowUnlockEvent { amount: 5 }));
}

#[test]
fn restore_refuses_repeated_account() {
    let twice = vec![
        EscrowedBalance { account: acct("R"), amount: 1, claim_after: 5 },
        EscrowedBalance { account: acct("S"), amount: 2, claim_after: 6 },
        EscrowedBalance { account: acct("R"), amount: 3, claim_after: 7 },
    ];
    assert!(Escrow::restore(acct("ASSET"), 10, twice).is_none());
    assert!(Escrow::restore(acct("ASSET"), 10, Vec::new()).is_some());
}

#[test]
fn account_identity() {
    let a = acct("GABC");
    assert!(a.same(&acct("GABC")));
    assert!(!a.same(&acct("GABD")));
    assert!(!a.same(&acct("GAB")));
    assert!(acct("").same(&acct("")));
    assert_eq!(a.duplicate().bytes, b"GABC".to_vec());
}
