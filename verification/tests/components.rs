use bank_ledger::{
    AccountKind, CheckingAccount, Clock, Error, IdAllocator, Ledger, Snapshot, Timestamp,
    UserAccount,
};

fn at(micros: i64) -> Timestamp {
    Timestamp::from_micros(micros)
}

#[test]
fn a_timestamp_holds_its_microseconds() {
    assert_eq!(at(0).micros(), 0);
    assert_eq!(at(-1).micros(), -1);
    assert_eq!(at(1_662_921_288_000_000).micros(), 1_662_921_288_000_000);
    assert_eq!(at(i64::MIN).micros(), i64::MIN);
    assert_eq!(at(i64::MAX).micros(), i64::MAX);
    assert_eq!(at(5), Timestamp { micros: 5 });
    assert_ne!(at(5), at(6));
}

#[test]
fn two_readings_of_the_system_clock_lie_in_this_century() {
    // 2020-01-01T00:00:00Z and 2100-01-01T00:00:00Z in microseconds.
    let floor = 1_577_836_800_000_000i64;
    let ceiling = 4_102_444_800_000_000i64;
    let first = Timestamp::now();
    let second = Timestamp::now();
    assert!(floor < first.micros() && first.micros() < ceiling);
    assert!(floor < second.micros() && second.micros() < ceiling);
}

#[test]
fn a_clock_hands_out_the_later_instant() {
    let mut clock = Clock::new();
    assert_eq!(clock.current(), at(i64::MIN));
    assert_eq!(clock.preview(at(-7)), at(-7));
    assert_eq!(clock.current(), at(i64::MIN));
    assert_eq!(clock.observe(at(-7)), at(-7));
    assert_eq!(clock.observe(at(-8)), at(-7));
    assert_eq!(clock.observe(at(-7)), at(-7));
    assert_eq!(clock.observe(at(100)), at(100));
    assert_eq!(clock.preview(at(99)), at(100));
    assert_eq!(clock.current(), at(100));
    let mut clock = Clock::starting_at(at(50));
    assert_eq!(clock.current(), at(50));
    assert_eq!(clock.observe(at(i64::MAX)), at(i64::MAX));
    assert_eq!(clock.observe(at(0)), at(i64::MAX));
}

#[test]
fn an_allocator_counts_up_from_one() {
    let mut ids = IdAllocator::new();
    assert_eq!(ids.last_issued(), 0);
    assert_eq!(ids.allocate(), Some(1));
    assert_eq!(ids.allocate(), Some(2));
    assert_eq!(ids.allocate(), Some(3));
    assert_eq!(ids.last_issued(), 3);
    let mut ids = IdAllocator::resuming_after(41);
    assert_eq!(ids.allocate(), Some(42));
}

#[test]
fn an_allocator_ends_at_the_largest_identifier() {
    let mut ids = IdAllocator::resuming_after(u64::MAX - 1);
    assert_eq!(ids.allocate(), Some(u64::MAX));
    assert_eq!(ids.allocate(), None);
    assert_eq!(ids.allocate(), None);
    assert_eq!(ids.last_issued(), u64::MAX);
}

#[test]
fn create_user_refuses_when_identifiers_are_exhausted() {
    let last = UserAccount {
        id: u64::MAX,
        name: "Last".to_string(),
        active: true,
        date_of_birth: String::new(),
        address: String::new(),
        social_security: 0,
        created_at: at(1),
        last_accessed: at(1),
    };
    let account = CheckingAccount {
        account_owner_id: u64::MAX,
        account_type: AccountKind::Checking,
        balance: 9,
        created_at: at(2),
        last_transaction: at(2),
    };
    let mut ledger = Ledger::restore(Snapshot { users: vec![last], accounts: vec![account] }).unwrap();
    assert_eq!(ledger.last_id(), u64::MAX);
    let before = ledger.snapshot();
    let r = ledger.create_user_at("One more".to_string(), String::new(), String::new(), 0, at(3));
    assert_eq!(r, Err(Error::IdsExhausted));
    assert_eq!(ledger.snapshot(), before);
    assert_eq!(ledger.now(), at(2));
    // An empty name is reported first.
    let r = ledger.create_user_at(String::new(), String::new(), String::new(), 0, at(3));
    assert_eq!(r, Err(Error::InvalidName));
}

#[test]
fn a_copy_of_a_user_is_equal_to_it() {
    let user = UserAccount {
        id: 3,
        name: "Cy".to_string(),
        active: false,
        date_of_birth: "01/02/1993".to_string(),
        address: "5 Fifth St".to_string(),
        social_security: 42,
        created_at: at(1),
        last_accessed: at(2),
    };
    let copy = user.clone();
    assert_eq!(copy, user);
    assert_eq!(copy.name, "Cy");
    assert_eq!(copy.last_accessed, at(2));
}
