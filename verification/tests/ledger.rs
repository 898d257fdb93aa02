use claim_ledger::{
    bytes_equal, AccountId, ClaimLedger, ClaimRecord, Error, Event, LedgerPosition,
};

fn alice() -> AccountId {
    AccountId(b"alice".to_vec())
}

fn bob() -> AccountId {
    AccountId(b"bob".to_vec())
}

fn record(owner: AccountId, at: u64) -> ClaimRecord {
    ClaimRecord { owner, registered_at: LedgerPosition(at) }
}

#[test]
fn new_ledger_is_empty() {
    let ledger = ClaimLedger::new(32);
    assert_eq!(ledger.max_claim_length(), 32);
    assert_eq!(ledger.lookup(b"hash1"), None);
    assert_eq!(ledger.lookup(b""), None);
}

#[test]
fn register_retract_cycle() {
    let mut ledger = ClaimLedger::new(32);
    assert_eq!(
        ledger.register(alice(), b"hash1".to_vec(), LedgerPosition(10)),
        Ok(Event::ClaimCreated(alice(), b"hash1".to_vec()))
    );
    assert_eq!(ledger.lookup(b"hash1"), Some(&record(alice(), 10)));
    assert_eq!(
        ledger.register(bob(), b"hash1".to_vec(), LedgerPosition(11)),
        Err(Error::ClaimAlreadyExists)
    );
    assert_eq!(ledger.lookup(b"hash1"), Some(&record(alice(), 10)));
    assert_eq!(ledger.retract(bob(), b"hash1".to_vec()), Err(Error::NotClaimOwner));
    assert_eq!(ledger.lookup(b"hash1"), Some(&record(alice(), 10)));
    assert_eq!(
        ledger.retract(alice(), b"hash1".to_vec()),
        Ok(Event::ClaimRevoked(alice(), b"hash1".to_vec()))
    );
    assert_eq!(ledger.lookup(b"hash1"), None);
    assert_eq!(
        ledger.register(bob(), b"hash1".to_vec(), LedgerPosition(12)),
        Ok(Event::ClaimCreated(bob(), b"hash1".to_vec()))
    );
    assert_eq!(ledger.lookup(b"hash1"), Some(&record(bob(), 12)));
}

#[test]
fn register_then_lookup_round_trip() {
    let mut ledger = ClaimLedger::new(8);
    assert!(ledger.register(alice(), vec![1, 2, 3], LedgerPosition(7)).is_ok());
    assert_eq!(ledger.lookup(&[1, 2, 3]), Some(&record(alice(), 7)));
    assert!(ledger.retract(alice(), vec![1, 2, 3]).is_ok());
    assert_eq!(ledger.lookup(&[1, 2, 3]), None);
}

#[test]
fn claim_of_greatest_length_is_accepted() {
    let mut ledger = ClaimLedger::new(4);
    assert_eq!(
        ledger.register(alice(), vec![9, 9, 9, 9], LedgerPosition(1)),
        Ok(Event::ClaimCreated(alice(), vec![9, 9, 9, 9]))
    );
    assert_eq!(ledger.lookup(&[9, 9, 9, 9]), Some(&record(alice(), 1)));
}

#[test]
fn claim_one_byte_too_long_is_rejected() {
    let mut ledger = ClaimLedger::new(4);
    assert_eq!(
        ledger.register(alice(), vec![9, 9, 9, 9, 9], LedgerPosition(1)),
        Err(Error::ClaimTooLong)
    );
    assert_eq!(ledger.lookup(&[9, 9, 9, 9, 9]), None);
    assert_eq!(ledger, ClaimLedger::new(4));
}

#[test]
fn empty_claim_is_a_claim() {
    let mut ledger = ClaimLedger::new(0);
    assert_eq!(
        ledger.register(alice(), Vec::new(), LedgerPosition(3)),
        Ok(Event::ClaimCreated(alice(), Vec::new()))
    );
    assert_eq!(ledger.lookup(&[]), Some(&record(alice(), 3)));
    assert_eq!(ledger.register(bob(), vec![0], LedgerPosition(4)), Err(Error::ClaimTooLong));
    assert_eq!(ledger.register(bob(), Vec::new(), LedgerPosition(4)), Err(Error::ClaimAlreadyExists));
}

#[test]
fn retract_of_unknown_claim_is_not_found() {
    let mut ledger = ClaimLedger::new(16);
    assert_eq!(ledger.retract(alice(), b"nothing".to_vec()), Err(Error::ClaimNotFound));
    assert!(ledger.register(alice(), b"something".to_vec(), LedgerPosition(1)).is_ok());
    assert_eq!(ledger.retract(alice(), b"nothing".to_vec()), Err(Error::ClaimNotFound));
    assert_eq!(ledger.lookup(b"something"), Some(&record(alice(), 1)));
}

#[test]
fn only_the_owner_retracts() {
    let mut ledger = ClaimLedger::new(16);
    assert!(ledger.register(alice(), b"doc".to_vec(), LedgerPosition(5)).is_ok());
    for other in [b"".to_vec(), b"bob".to_vec(), b"alic".to_vec(), b"alice ".to_vec(), b"Alice".to_vec()] {
        assert_eq!(ledger.retract(AccountId(other), b"doc".to_vec()), Err(Error::NotClaimOwner));
        assert_eq!(ledger.lookup(b"doc"), Some(&record(alice(), 5)));
    }
}

fn sample() -> ClaimLedger {
    let mut ledger = ClaimLedger::new(6);
    assert!(ledger.register(alice(), b"a".to_vec(), LedgerPosition(1)).is_ok());
    assert!(ledger.register(bob(), b"b".to_vec(), LedgerPosition(2)).is_ok());
    assert!(ledger.register(alice(), b"c".to_vec(), LedgerPosition(3)).is_ok());
    ledger
}

#[test]
fn failed_operations_change_nothing() {
    let mut ledger = sample();
    assert_eq!(ledger.register(bob(), b"a".to_vec(), LedgerPosition(9)), Err(Error::ClaimAlreadyExists));
    assert_eq!(ledger, sample());
    assert_eq!(ledger.register(bob(), b"toolong".to_vec(), LedgerPosition(9)), Err(Error::ClaimTooLong));
    assert_eq!(ledger, sample());
    assert_eq!(ledger.retract(alice(), b"b".to_vec()), Err(Error::NotClaimOwner));
    assert_eq!(ledger, sample());
    assert_eq!(ledger.retract(alice(), b"d".to_vec()), Err(Error::ClaimNotFound));
    assert_eq!(ledger, sample());
}

#[test]
fn retract_leaves_other_claims_alone() {
    let mut ledger = sample();
    assert_eq!(ledger.retract(alice(), b"a".to_vec()), Ok(Event::ClaimRevoked(alice(), b"a".to_vec())));
    assert_eq!(ledger.lookup(b"a"), None);
    assert_eq!(ledger.lookup(b"b"), Some(&record(bob(), 2)));
    assert_eq!(ledger.lookup(b"c"), Some(&record(alice(), 3)));
    assert_eq!(ledger.retract(alice(), b"c".to_vec()), Ok(Event::ClaimRevoked(alice(), b"c".to_vec())));
    assert_eq!(ledger.lookup(b"b"), Some(&record(bob(), 2)));
    assert_eq!(ledger.retract(bob(), b"b".to_vec()), Ok(Event::ClaimRevoked(bob(), b"b".to_vec())));
    assert_eq!(ledger, ClaimLedger::new(6));
}

#[test]
fn a_claim_has_one_record_at_a_time() {
    let mut ledger = ClaimLedger::new(6);
    assert!(ledger.register(alice(), b"x".to_vec(), LedgerPosition(1)).is_ok());
    assert_eq!(ledger.register(alice(), b"x".to_vec(), LedgerPosition(2)), Err(Error::ClaimAlreadyExists));
    assert_eq!(ledger.register(bob(), b"x".to_vec(), LedgerPosition(3)), Err(Error::ClaimAlreadyExists));
    assert_eq!(ledger.lookup(b"x"), Some(&record(alice(), 1)));
    assert!(ledger.retract(alice(), b"x".to_vec()).is_ok());
    assert_eq!(ledger.retract(alice(), b"x".to_vec()), Err(Error::ClaimNotFound));
    assert_eq!(ledger.lookup(b"x"), None);
}

#[test]
fn claims_differ_by_any_byte() {
    let mut ledger = ClaimLedger::new(6);
    assert!(ledger.register(alice(), b"hash".to_vec(), LedgerPosition(1)).is_ok());
    assert!(ledger.register(bob(), b"Hash".to_vec(), LedgerPosition(2)).is_ok());
    assert!(ledger.register(bob(), b"hash ".to_vec(), LedgerPosition(3)).is_ok());
    assert!(ledger.register(bob(), b"has".to_vec(), LedgerPosition(4)).is_ok());
    assert_eq!(ledger.lookup(b"hash"), Some(&record(alice(), 1)));
    assert_eq!(ledger.lookup(b"Hash"), Some(&record(bob(), 2)));
    assert_eq!(ledger.lookup(b"hash "), Some(&record(bob(), 3)));
    assert_eq!(ledger.lookup(b"has"), Some(&record(bob(), 4)));
    assert_eq!(ledger.lookup(b"hasH"), None);
}

#[test]
fn reregistration_makes_a_new_record() {
    let mut ledger = ClaimLedger::new(6);
    assert!(ledger.register(alice(), b"k".to_vec(), LedgerPosition(1)).is_ok());
    assert!(ledger.retract(alice(), b"k".to_vec()).is_ok());
    assert!(ledger.register(alice(), b"k".to_vec(), LedgerPosition(8)).is_ok());
    assert_eq!(ledger.lookup(b"k"), Some(&record(alice(), 8)));
}

#[test]
fn accounts_compare_byte_for_byte() {
    assert!(alice().same_as(&alice()));
    assert!(!alice().same_as(&bob()));
    assert!(!alice().same_as(&AccountId(b"alicf".to_vec())));
    assert!(!alice().same_as(&AccountId(b"alic".to_vec())));
    assert!(AccountId(Vec::new()).same_as(&AccountId(Vec::new())));
    assert_eq!(alice().clone(), alice());
    assert_eq!(record(bob(), 4).clone(), record(bob(), 4));
}

#[test]
fn bytes_equal_cases() {
    assert!(bytes_equal(b"", b""));
    assert!(bytes_equal(b"abc", b"abc"));
    assert!(!bytes_equal(b"abc", b"abd"));
    assert!(!bytes_equal(b"abc", b"ab"));
    assert!(!bytes_equal(b"", b"a"));
    assert!(!bytes_equal(b"xbc", b"abc"));
}

#[test]
fn event_clone_is_equal() {
    let created = Event::ClaimCreated(alice(), vec![1, 2]);
    let revoked = Event::ClaimRevoked(bob(), vec![3]);
    assert_eq!(created.clone(), created);
    assert_eq!(revoked.clone(), revoked);
    assert_ne!(created, revoked);
    assert_ne!(created, Event::ClaimRevoked(alice(), vec![1, 2]));
}
