use memes::ledger::{CurrencyError, Ledger};

const CAROL: u64 = 7;

#[test]
fn fresh_ledger_holds_nothing() {
    let ledger = Ledger::new();
    assert_eq!(ledger.free_balance(CAROL), 0);
    assert_eq!(ledger.reserved_balance(CAROL), 0);
}

#[test]
fn reserve_moves_free_to_reserved() {
    let mut ledger = Ledger::new();
    ledger.set_free_balance(CAROL, 10);
    assert_eq!(ledger.reserve(CAROL, 4), Ok(()));
    assert_eq!(ledger.free_balance(CAROL), 6);
    assert_eq!(ledger.reserved_balance(CAROL), 4);
}

#[test]
fn reserve_beyond_free_balance_fails_and_changes_nothing() {
    let mut ledger = Ledger::new();
    ledger.set_free_balance(CAROL, 3);
    assert_eq!(ledger.reserve(CAROL, 4), Err(CurrencyError::InsufficientBalance));
    assert_eq!(ledger.free_balance(CAROL), 3);
    assert_eq!(ledger.reserved_balance(CAROL), 0);
}

#[test]
fn unreserve_moves_reserved_to_free_with_zero_shortfall() {
    let mut ledger = Ledger::new();
    ledger.set_free_balance(CAROL, 10);
    ledger.reserve(CAROL, 7).unwrap();
    assert_eq!(ledger.unreserve(CAROL, 7), 0);
    assert_eq!(ledger.free_balance(CAROL), 10);
    assert_eq!(ledger.reserved_balance(CAROL), 0);
}

#[test]
fn unreserve_beyond_reserved_reports_the_shortfall() {
    let mut ledger = Ledger::new();
    ledger.set_free_balance(CAROL, 10);
    ledger.reserve(CAROL, 2).unwrap();
    assert_eq!(ledger.unreserve(CAROL, 5), 3);
    assert_eq!(ledger.free_balance(CAROL), 10);
    assert_eq!(ledger.reserved_balance(CAROL), 0);
}

#[test]
fn set_free_balance_leaves_reserved_alone() {
    let mut ledger = Ledger::new();
    ledger.set_free_balance(CAROL, 10);
    ledger.reserve(CAROL, 4).unwrap();
    ledger.set_free_balance(CAROL, 50);
    assert_eq!(ledger.free_balance(CAROL), 50);
    assert_eq!(ledger.reserved_balance(CAROL), 4);
}
