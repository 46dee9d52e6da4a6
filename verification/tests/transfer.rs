use bank_ledger::{Error, Ledger, Receipt, Timestamp};

fn at(micros: i64) -> Timestamp {
    Timestamp::from_micros(micros)
}

fn text(s: &str) -> String {
    s.to_string()
}

/// Users 1 and 2 with checking balances `a` and `b`, and user 3 without an
/// account.
fn funded(a: u64, b: u64) -> Ledger {
    let mut ledger = Ledger::new();
    ledger.create_user_at(text("A"), text("d"), text("x"), 1, at(1)).unwrap();
    ledger.create_user_at(text("B"), text("d"), text("y"), 2, at(2)).unwrap();
    ledger.create_user_at(text("C"), text("d"), text("z"), 3, at(3)).unwrap();
    ledger.create_checking_at(1, at(4)).unwrap();
    ledger.create_checking_at(2, at(5)).unwrap();
    if a > 0 {
        ledger.deposit(1, a).unwrap();
    }
    if b > 0 {
        ledger.deposit(2, b).unwrap();
    }
    ledger
}

fn balances(ledger: &Ledger) -> (u64, u64) {
    (ledger.get_checking(1).unwrap().balance, ledger.get_checking(2).unwrap().balance)
}

#[test]
fn self_transfer_is_rejected() {
    let mut ledger = Ledger::new();
    let john = ledger
        .create_user_at(text("John"), text("01/01/1990"), text("123 Main St"), 123456789, at(1))
        .unwrap();
    let account = ledger.create_checking_at(john.id, at(2)).unwrap();
    assert_eq!(account.balance, 0);
    let before = ledger.snapshot();
    assert_eq!(ledger.transfer_at(john.id, john.id, 50, at(3)), Err(Error::SelfTransfer));
    assert_eq!(ledger.get_checking(john.id).unwrap().balance, 0);
    assert_eq!(ledger.snapshot(), before);
    assert_eq!(ledger.now(), at(2));
}

#[test]
fn transfer_then_insufficient_funds() {
    let mut ledger = funded(1000, 0);
    let receipt = ledger.transfer_at(1, 2, 300, at(10)).unwrap();
    assert_eq!(
        receipt,
        Receipt { from_owner_id: 1, to_owner_id: 2, amount: 300, timestamp: at(10) }
    );
    assert_eq!(balances(&ledger), (700, 300));
    let before = ledger.snapshot();
    assert_eq!(ledger.transfer_at(1, 2, 800, at(11)), Err(Error::InsufficientFunds));
    assert_eq!(balances(&ledger), (700, 300));
    assert_eq!(ledger.snapshot(), before);
    assert_eq!(ledger.now(), at(10));
}

#[test]
fn transfer_moves_exactly_the_amount() {
    for (a, b, amount) in [(1u64, 0u64, 1u64), (500, 500, 499), (u64::MAX - 7, 7, u64::MAX - 7), (10, 0, 10)] {
        let mut ledger = funded(a, b);
        let total = ledger.total_balance();
        ledger.transfer_at(1, 2, amount, at(10)).unwrap();
        assert_eq!(balances(&ledger), (a - amount, b + amount));
        assert_eq!(ledger.total_balance(), total);
    }
}

#[test]
fn transfer_stamps_both_accounts_with_one_instant() {
    let mut ledger = funded(100, 0);
    let receipt = ledger.transfer_at(1, 2, 40, at(77)).unwrap();
    let from = ledger.get_checking(1).unwrap();
    let to = ledger.get_checking(2).unwrap();
    assert_eq!(from.last_transaction, at(77));
    assert_eq!(to.last_transaction, at(77));
    assert_eq!(receipt.timestamp, at(77));
    assert_eq!(from.created_at, at(4));
    assert_eq!(to.created_at, at(5));
    assert_eq!(ledger.now(), at(77));
    // Users are not touched.
    assert_eq!(ledger.users()[0].last_accessed, at(1));
    assert_eq!(ledger.users()[1].last_accessed, at(2));
}

#[test]
fn transfer_with_a_late_reading_uses_the_clock() {
    let mut ledger = funded(100, 0);
    let receipt = ledger.transfer_at(1, 2, 40, at(-5)).unwrap();
    assert_eq!(receipt.timestamp, at(5));
    assert_eq!(ledger.get_checking(1).unwrap().last_transaction, at(5));
}

#[test]
fn insufficient_funds_changes_nothing() {
    for (a, amount) in [(0u64, 1u64), (10, 11), (999, u64::MAX)] {
        let mut ledger = funded(a, 5);
        let before = ledger.snapshot();
        assert_eq!(ledger.transfer_at(1, 2, amount, at(10)), Err(Error::InsufficientFunds));
        assert_eq!(ledger.snapshot(), before);
        assert_eq!(ledger.now(), at(5));
    }
}

#[test]
fn missing_account_is_named() {
    let mut ledger = funded(100, 100);
    let before = ledger.snapshot();
    assert_eq!(ledger.transfer_at(1, 3, 10, at(10)), Err(Error::AccountNotFound { owner_id: 3 }));
    assert_eq!(ledger.transfer_at(3, 1, 10, at(10)), Err(Error::AccountNotFound { owner_id: 3 }));
    assert_eq!(ledger.transfer_at(9, 2, 10, at(10)), Err(Error::AccountNotFound { owner_id: 9 }));
    assert_eq!(ledger.transfer_at(8, 9, 10, at(10)), Err(Error::AccountNotFound { owner_id: 8 }));
    assert_eq!(ledger.snapshot(), before);
}

#[test]
fn refusals_come_in_the_documented_order() {
    let mut ledger = funded(100, 100);
    ledger.set_active_at(1, false, at(6)).unwrap();
    ledger.set_active_at(2, false, at(7)).unwrap();
    // A zero amount is reported before anything else.
    assert_eq!(ledger.transfer_at(9, 9, 0, at(10)), Err(Error::InvalidAmount));
    assert_eq!(ledger.transfer_at(1, 2, 0, at(10)), Err(Error::InvalidAmount));
    // The same account on both sides is reported before a missing account.
    assert_eq!(ledger.transfer_at(9, 9, 5, at(10)), Err(Error::SelfTransfer));
    // A missing account is reported before an inactive owner.
    assert_eq!(ledger.transfer_at(1, 3, 5, at(10)), Err(Error::AccountNotFound { owner_id: 3 }));
    // The source is named before the destination.
    assert_eq!(ledger.transfer_at(1, 2, 5, at(10)), Err(Error::InactiveAccount { owner_id: 1 }));
    ledger.set_active_at(1, true, at(8)).unwrap();
    assert_eq!(ledger.transfer_at(1, 2, 5, at(10)), Err(Error::InactiveAccount { owner_id: 2 }));
    // An inactive owner is reported before a lack of funds.
    assert_eq!(ledger.transfer_at(1, 2, 500, at(10)), Err(Error::InactiveAccount { owner_id: 2 }));
    ledger.set_active_at(2, true, at(9)).unwrap();
    assert_eq!(ledger.transfer_at(1, 2, 500, at(10)), Err(Error::InsufficientFunds));
    assert_eq!(balances(&ledger), (100, 100));
}

#[test]
fn the_same_transfer_twice_moves_the_amount_twice() {
    let mut ledger = funded(100, 0);
    ledger.transfer_at(1, 2, 30, at(10)).unwrap();
    ledger.transfer_at(1, 2, 30, at(10)).unwrap();
    assert_eq!(balances(&ledger), (40, 60));
}

#[test]
fn opposite_transfers_cancel_in_either_order() {
    let mut ledger = funded(400, 250);
    let others = ledger.users().len();
    ledger.transfer_at(1, 2, 200, at(10)).unwrap();
    ledger.transfer_at(2, 1, 200, at(11)).unwrap();
    assert_eq!(balances(&ledger), (400, 250));
    ledger.transfer_at(2, 1, 200, at(12)).unwrap();
    ledger.transfer_at(1, 2, 200, at(13)).unwrap();
    assert_eq!(balances(&ledger), (400, 250));
    assert_eq!(ledger.users().len(), others);
    // With nothing to start from, the transfer back still succeeds after
    // the transfer there.
    let mut ledger = funded(100, 0);
    ledger.transfer_at(1, 2, 50, at(10)).unwrap();
    ledger.transfer_at(2, 1, 50, at(11)).unwrap();
    assert_eq!(balances(&ledger), (100, 0));
}

#[test]
fn transfer_by_refuses_a_missed_deadline() {
    let mut ledger = funded(100, 0);
    let before = ledger.snapshot();
    assert_eq!(ledger.transfer_by_at(1, 2, 10, at(50), at(51)), Err(Error::Timeout));
    assert_eq!(ledger.snapshot(), before);
    assert_eq!(ledger.now(), at(5));
    // A missed deadline is reported before anything else.
    assert_eq!(ledger.transfer_by_at(1, 1, 0, at(50), at(51)), Err(Error::Timeout));
    let receipt = ledger.transfer_by_at(1, 2, 10, at(50), at(50)).unwrap();
    assert_eq!(receipt, Receipt { from_owner_id: 1, to_owner_id: 2, amount: 10, timestamp: at(50) });
    assert_eq!(balances(&ledger), (90, 10));
    assert_eq!(ledger.transfer_by_at(1, 2, 1000, at(60), at(55)), Err(Error::InsufficientFunds));
}

#[test]
fn transfers_stamp_with_the_system_clock() {
    // 2020-01-01T00:00:00Z in microseconds.
    let floor = 1_577_836_800_000_000i64;
    let mut ledger = funded(100, 0);
    let receipt = ledger.transfer(1, 2, 25).unwrap();
    assert!(receipt.timestamp.micros() > floor);
    assert_eq!(receipt.from_owner_id, 1);
    assert_eq!(receipt.to_owner_id, 2);
    assert_eq!(receipt.amount, 25);
    assert_eq!(ledger.get_checking(2).unwrap().last_transaction, receipt.timestamp);
    assert_eq!(balances(&ledger), (75, 25));
    assert_eq!(ledger.transfer(1, 2, 1000), Err(Error::InsufficientFunds));
    assert_eq!(ledger.transfer_by(1, 2, 5, at(floor)), Err(Error::Timeout));
    let far = at(i64::MAX);
    let late = ledger.transfer_by(1, 2, 5, far).unwrap();
    assert!(late.timestamp.micros() >= receipt.timestamp.micros());
    assert_eq!(balances(&ledger), (70, 30));
}
