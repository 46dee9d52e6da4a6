use bank_ledger::{AccountKind, Error, Ledger, Timestamp};

fn at(micros: i64) -> Timestamp {
    Timestamp::from_micros(micros)
}

fn text(s: &str) -> String {
    s.to_string()
}

fn two_users() -> Ledger {
    let mut ledger = Ledger::new();
    ledger.create_user_at(text("A"), text("02/03/1991"), text("1 First St"), 111, at(10)).unwrap();
    ledger.create_user_at(text("B"), text("04/05/1992"), text("2 Second St"), 222, at(20)).unwrap();
    ledger
}

#[test]
fn new_ledger_is_empty() {
    let ledger = Ledger::new();
    assert!(ledger.users().is_empty());
    assert!(ledger.accounts().is_empty());
    assert_eq!(ledger.last_id(), 0);
    assert_eq!(ledger.now(), at(i64::MIN));
    assert_eq!(ledger.total_balance(), 0);
}

#[test]
fn create_user_fills_every_field() {
    let mut ledger = Ledger::new();
    let user = ledger
        .create_user_at(text("John"), text("01/01/1990"), text("123 Main St"), 123456789, at(1_000))
        .unwrap();
    assert_eq!(user.id, 1);
    assert_eq!(user.name, "John");
    assert!(user.active);
    assert_eq!(user.date_of_birth, "01/01/1990");
    assert_eq!(user.address, "123 Main St");
    assert_eq!(user.social_security, 123456789);
    assert_eq!(user.created_at, at(1_000));
    assert_eq!(user.last_accessed, at(1_000));
    assert_eq!(ledger.users().len(), 1);
    assert_eq!(ledger.users()[0], user);
    assert_eq!(ledger.last_id(), 1);
    assert_eq!(ledger.now(), at(1_000));
}

#[test]
fn identifiers_grow_by_one_and_are_never_reused() {
    let mut ledger = Ledger::new();
    let mut previous = 0;
    for round in 0..20 {
        let user = ledger.create_user_at(text("N"), text(""), text(""), 0, at(round)).unwrap();
        assert_eq!(user.id, previous + 1);
        previous = user.id;
    }
    assert_eq!(ledger.last_id(), 20);
}

#[test]
fn create_user_refuses_an_empty_name() {
    let mut ledger = two_users();
    let before = ledger.snapshot();
    let r = ledger.create_user_at(text(""), text("d"), text("a"), 1, at(99));
    assert_eq!(r, Err(Error::InvalidName));
    assert_eq!(ledger.snapshot(), before);
    assert_eq!(ledger.last_id(), 2);
    assert_eq!(ledger.now(), at(20));
}

#[test]
fn the_clock_never_runs_backwards() {
    let mut ledger = Ledger::new();
    let first = ledger.create_user_at(text("A"), text(""), text(""), 0, at(500)).unwrap();
    let second = ledger.create_user_at(text("B"), text(""), text(""), 0, at(100)).unwrap();
    assert_eq!(first.created_at, at(500));
    assert_eq!(second.created_at, at(500));
    let third = ledger.create_user_at(text("C"), text(""), text(""), 0, at(501)).unwrap();
    assert_eq!(third.created_at, at(501));
    assert_eq!(ledger.now(), at(501));
}

#[test]
fn create_checking_opens_an_empty_account() {
    let mut ledger = two_users();
    let account = ledger.create_checking_at(2, at(30)).unwrap();
    assert_eq!(account.account_owner_id, 2);
    assert_eq!(account.account_type, AccountKind::Checking);
    assert_eq!(account.account_type.label(), "Checking");
    assert_eq!(account.balance, 0);
    assert_eq!(account.created_at, at(30));
    assert_eq!(account.last_transaction, at(30));
    assert_eq!(ledger.accounts().len(), 1);
    assert_eq!(ledger.accounts()[0], account);
    assert_eq!(ledger.get_checking(2), Ok(account));
}

#[test]
fn create_checking_refuses_an_unknown_owner() {
    let mut ledger = two_users();
    let before = ledger.snapshot();
    assert_eq!(ledger.create_checking_at(3, at(30)), Err(Error::OwnerNotFound));
    assert_eq!(ledger.create_checking_at(0, at(30)), Err(Error::OwnerNotFound));
    assert_eq!(ledger.snapshot(), before);
    assert_eq!(ledger.now(), at(20));
}

#[test]
fn create_checking_refuses_a_second_account() {
    let mut ledger = two_users();
    ledger.create_checking_at(1, at(30)).unwrap();
    let before = ledger.snapshot();
    assert_eq!(ledger.create_checking_at(1, at(40)), Err(Error::DuplicateAccount));
    assert_eq!(ledger.snapshot(), before);
    assert_eq!(ledger.now(), at(30));
}

#[test]
fn create_checking_refuses_an_inactive_owner() {
    let mut ledger = two_users();
    ledger.set_active_at(1, false, at(25)).unwrap();
    assert_eq!(ledger.create_checking_at(1, at(30)), Err(Error::InactiveAccount { owner_id: 1 }));
    assert!(ledger.accounts().is_empty());
}

#[test]
fn get_user_marks_the_access() {
    let mut ledger = two_users();
    let user = ledger.get_user_at(1, at(50)).unwrap();
    assert_eq!(user.id, 1);
    assert_eq!(user.name, "A");
    assert_eq!(user.created_at, at(10));
    assert_eq!(user.last_accessed, at(50));
    assert_eq!(ledger.users()[0].last_accessed, at(50));
    assert_eq!(ledger.users()[1].last_accessed, at(20));
    assert_eq!(ledger.now(), at(50));
}

#[test]
fn get_user_refuses_an_unknown_identifier() {
    let mut ledger = two_users();
    let before = ledger.snapshot();
    assert_eq!(ledger.get_user_at(7, at(50)), Err(Error::OwnerNotFound));
    assert_eq!(ledger.snapshot(), before);
    assert_eq!(ledger.now(), at(20));
}

#[test]
fn get_checking_refuses_an_owner_without_account() {
    let mut ledger = two_users();
    ledger.create_checking_at(1, at(30)).unwrap();
    assert_eq!(ledger.get_checking(2), Err(Error::AccountNotFound { owner_id: 2 }));
    assert_eq!(ledger.get_checking(9), Err(Error::AccountNotFound { owner_id: 9 }));
}

#[test]
fn set_active_changes_the_flag_and_marks_the_access() {
    let mut ledger = two_users();
    assert_eq!(ledger.set_active_at(2, false, at(60)), Ok(()));
    assert!(!ledger.users()[1].active);
    assert_eq!(ledger.users()[1].last_accessed, at(60));
    assert!(ledger.users()[0].active);
    assert_eq!(ledger.set_active_at(2, true, at(61)), Ok(()));
    assert!(ledger.users()[1].active);
    assert_eq!(ledger.set_active_at(5, true, at(62)), Err(Error::OwnerNotFound));
    assert_eq!(ledger.now(), at(61));
}

#[test]
fn deposit_raises_one_balance() {
    let mut ledger = two_users();
    ledger.create_checking_at(1, at(30)).unwrap();
    ledger.create_checking_at(2, at(31)).unwrap();
    assert_eq!(ledger.deposit(2, 250), Ok(()));
    assert_eq!(ledger.deposit(2, 50), Ok(()));
    assert_eq!(ledger.get_checking(1).unwrap().balance, 0);
    assert_eq!(ledger.get_checking(2).unwrap().balance, 300);
    assert_eq!(ledger.get_checking(2).unwrap().last_transaction, at(31));
    assert_eq!(ledger.total_balance(), 300);
    assert_eq!(ledger.now(), at(31));
}

#[test]
fn deposit_refusals() {
    let mut ledger = two_users();
    ledger.create_checking_at(1, at(30)).unwrap();
    ledger.create_checking_at(2, at(31)).unwrap();
    ledger.deposit(1, u64::MAX - 10).unwrap();
    let before = ledger.snapshot();
    assert_eq!(ledger.deposit(1, 0), Err(Error::InvalidAmount));
    assert_eq!(ledger.deposit(3, 5), Err(Error::AccountNotFound { owner_id: 3 }));
    assert_eq!(ledger.deposit(2, 11), Err(Error::BalanceOverflow));
    assert_eq!(ledger.deposit(1, 11), Err(Error::BalanceOverflow));
    assert_eq!(ledger.snapshot(), before);
    assert_eq!(ledger.deposit(2, 10), Ok(()));
    assert_eq!(ledger.total_balance(), u64::MAX);
}

#[test]
fn find_user_and_find_account_give_places() {
    let mut ledger = two_users();
    ledger.create_checking_at(2, at(30)).unwrap();
    assert_eq!(ledger.find_user(1), Some(0));
    assert_eq!(ledger.find_user(2), Some(1));
    assert_eq!(ledger.find_user(3), None);
    assert_eq!(ledger.find_account(2), Some(0));
    assert_eq!(ledger.find_account(1), None);
}

#[test]
fn operations_stamp_with_the_system_clock() {
    // 2020-01-01T00:00:00Z in microseconds.
    let floor = 1_577_836_800_000_000i64;
    let mut ledger = Ledger::new();
    let user = ledger.create_user(text("A"), text(""), text(""), 0).unwrap();
    assert!(user.created_at.micros() > floor);
    assert_eq!(user.created_at, user.last_accessed);
    let account = ledger.create_checking(user.id).unwrap();
    assert!(account.created_at.micros() >= user.created_at.micros());
    let seen = ledger.get_user(user.id).unwrap();
    assert!(seen.last_accessed.micros() >= account.created_at.micros());
    assert_eq!(ledger.set_active(user.id, true), Ok(()));
    assert!(ledger.now().micros() >= seen.last_accessed.micros());
    assert!(Timestamp::now().micros() > floor);
}
