use xcheddar::ShareLedger;
use xcheddar::VaultError;

fn name(s: &str) -> String {
    String::from(s)
}

#[test]
fn new_ledger_is_empty() {
    let ledger = ShareLedger::new();
    assert_eq!(ledger.total_supply(), 0);
    assert!(!ledger.contains(&name("alice")));
    assert_eq!(ledger.balance_of(&name("alice")), None);
}

#[test]
fn register_adds_an_account_once() {
    let mut ledger = ShareLedger::new();
    assert!(ledger.register(&name("alice")));
    assert!(ledger.contains(&name("alice")));
    assert_eq!(ledger.balance_of(&name("alice")), Some(0));
    ledger.deposit(&name("alice"), 5).unwrap();
    assert!(!ledger.register(&name("alice")));
    assert_eq!(ledger.balance_of(&name("alice")), Some(5));
    assert_eq!(ledger.total_supply(), 5);
}

#[test]
fn deposit_mints_to_balance_and_supply() {
    let mut ledger = ShareLedger::new();
    ledger.register(&name("alice"));
    ledger.register(&name("bob"));
    assert_eq!(ledger.deposit(&name("alice"), 70), Ok(()));
    assert_eq!(ledger.deposit(&name("bob"), 30), Ok(()));
    assert_eq!(ledger.deposit(&name("alice"), 1), Ok(()));
    assert_eq!(ledger.balance_of(&name("alice")), Some(71));
    assert_eq!(ledger.balance_of(&name("bob")), Some(30));
    assert_eq!(ledger.total_supply(), 101);
}

#[test]
fn deposit_to_unknown_account_is_refused() {
    let mut ledger = ShareLedger::new();
    assert_eq!(ledger.deposit(&name("alice"), 1), Err(VaultError::AccountNotRegistered));
    assert_eq!(ledger.total_supply(), 0);
    assert!(!ledger.contains(&name("alice")));
}

#[test]
fn deposit_overflow_is_refused_without_change() {
    let mut ledger = ShareLedger::new();
    ledger.register(&name("alice"));
    ledger.register(&name("bob"));
    ledger.deposit(&name("alice"), u128::MAX - 1).unwrap();
    assert_eq!(ledger.deposit(&name("alice"), 2), Err(VaultError::ArithmeticOverflow));
    assert_eq!(ledger.deposit(&name("bob"), 2), Err(VaultError::ArithmeticOverflow));
    assert_eq!(ledger.balance_of(&name("alice")), Some(u128::MAX - 1));
    assert_eq!(ledger.balance_of(&name("bob")), Some(0));
    assert_eq!(ledger.total_supply(), u128::MAX - 1);
    assert_eq!(ledger.deposit(&name("bob"), 1), Ok(()));
    assert_eq!(ledger.total_supply(), u128::MAX);
}

#[test]
fn withdraw_burns_from_balance_and_supply() {
    let mut ledger = ShareLedger::new();
    ledger.register(&name("alice"));
    ledger.register(&name("bob"));
    ledger.deposit(&name("alice"), 70).unwrap();
    ledger.deposit(&name("bob"), 30).unwrap();
    assert_eq!(ledger.withdraw(&name("alice"), 20), Ok(()));
    assert_eq!(ledger.balance_of(&name("alice")), Some(50));
    assert_eq!(ledger.balance_of(&name("bob")), Some(30));
    assert_eq!(ledger.total_supply(), 80);
    assert_eq!(ledger.withdraw(&name("alice"), 50), Ok(()));
    assert_eq!(ledger.balance_of(&name("alice")), Some(0));
    assert!(ledger.contains(&name("alice")));
}

#[test]
fn withdraw_refusals_change_nothing() {
    let mut ledger = ShareLedger::new();
    ledger.register(&name("alice"));
    ledger.deposit(&name("alice"), 10).unwrap();
    assert_eq!(ledger.withdraw(&name("bob"), 1), Err(VaultError::AccountNotRegistered));
    assert_eq!(ledger.withdraw(&name("alice"), 11), Err(VaultError::InsufficientBalance));
    assert_eq!(ledger.balance_of(&name("alice")), Some(10));
    assert_eq!(ledger.total_supply(), 10);
}

#[test]
fn withdraw_beyond_supply_is_an_invariant_violation() {
    let mut ledger = ShareLedger::with_total_supply(5);
    ledger.set_balance(&name("alice"), 9);
    assert_eq!(ledger.withdraw(&name("alice"), 7), Err(VaultError::InternalInvariantViolation));
    assert_eq!(ledger.balance_of(&name("alice")), Some(9));
    assert_eq!(ledger.total_supply(), 5);
    assert_eq!(ledger.withdraw(&name("alice"), 5), Ok(()));
    assert_eq!(ledger.balance_of(&name("alice")), Some(4));
    assert_eq!(ledger.total_supply(), 0);
}

#[test]
fn partial_ledger_keeps_given_supply() {
    let mut ledger = ShareLedger::with_total_supply(1_000);
    assert_eq!(ledger.total_supply(), 1_000);
    assert!(!ledger.contains(&name("alice")));
    ledger.set_balance(&name("alice"), 40);
    assert_eq!(ledger.balance_of(&name("alice")), Some(40));
    assert_eq!(ledger.total_supply(), 1_000);
    ledger.set_balance(&name("alice"), 7);
    assert_eq!(ledger.balance_of(&name("alice")), Some(7));
}

#[test]
fn unregister_needs_an_empty_balance() {
    let mut ledger = ShareLedger::new();
    assert!(!ledger.unregister(&name("alice")));
    ledger.register(&name("alice"));
    ledger.deposit(&name("alice"), 3).unwrap();
    assert!(!ledger.unregister(&name("alice")));
    assert_eq!(ledger.balance_of(&name("alice")), Some(3));
    ledger.withdraw(&name("alice"), 3).unwrap();
    assert!(ledger.unregister(&name("alice")));
    assert!(!ledger.contains(&name("alice")));
    assert_eq!(ledger.total_supply(), 0);
}

#[test]
fn deposit_and_withdraw_undo_each_other() {
    let mut ledger = ShareLedger::new();
    ledger.register(&name("alice"));
    ledger.register(&name("bob"));
    ledger.deposit(&name("alice"), 123).unwrap();
    ledger.deposit(&name("bob"), 77).unwrap();
    ledger.withdraw(&name("alice"), 100).unwrap();
    ledger.deposit(&name("alice"), 100).unwrap();
    assert_eq!(ledger.balance_of(&name("alice")), Some(123));
    assert_eq!(ledger.balance_of(&name("bob")), Some(77));
    assert_eq!(ledger.total_supply(), 200);
}
