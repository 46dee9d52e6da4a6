use bank_ledger::codec::{decode, encode};
use bank_ledger::{
    load, save, AccountKind, CheckingAccount, Error, Ledger, SaveAction, SaveJob, Snapshot,
    Timestamp, UserAccount,
};

fn at(micros: i64) -> Timestamp {
    Timestamp::from_micros(micros)
}

fn text(s: &str) -> String {
    s.to_string()
}

fn user(id: u64, name: &str, accessed: i64) -> UserAccount {
    UserAccount {
        id,
        name: text(name),
        active: true,
        date_of_birth: text("01/01/1990"),
        address: text("123 Main St"),
        social_security: 123456789,
        created_at: at(1),
        last_accessed: at(accessed),
    }
}

fn account(owner: u64, balance: u64, transacted: i64) -> CheckingAccount {
    CheckingAccount {
        account_owner_id: owner,
        account_type: AccountKind::Checking,
        balance,
        created_at: at(2),
        last_transaction: at(transacted),
    }
}

fn busy_ledger() -> Ledger {
    let mut ledger = Ledger::new();
    ledger.create_user_at(text("Zoë"), text("29/02/2000"), text("東京都 1-2-3"), 7, at(-40)).unwrap();
    ledger.create_user_at(text("Bob"), text(""), text(""), u32::MAX, at(15)).unwrap();
    ledger.create_user_at(text("Cy"), text("x"), text("y"), 0, at(16)).unwrap();
    ledger.create_checking_at(1, at(20)).unwrap();
    ledger.create_checking_at(3, at(21)).unwrap();
    ledger.deposit(1, 5_000).unwrap();
    ledger.deposit(3, u64::MAX - 5_000).unwrap();
    ledger.transfer_at(1, 3, 0, at(22)).unwrap_err();
    ledger.transfer_at(3, 1, 1_234, at(23)).unwrap();
    ledger.set_active_at(2, false, at(24)).unwrap();
    ledger.get_user_at(1, at(25)).unwrap();
    ledger
}

const MAGIC: [u8; 8] = [0x4c, 0x44, 0x47, 0x52, 1, 0, 0, 0];

#[test]
fn empty_snapshot_is_twenty_four_bytes() {
    let bytes = encode(&Snapshot { users: vec![], accounts: vec![] });
    let mut expected = MAGIC.to_vec();
    expected.extend_from_slice(&[0; 16]);
    assert_eq!(bytes, expected);
    assert_eq!(decode(&bytes), Ok(Snapshot { users: vec![], accounts: vec![] }));
}

#[test]
fn encode_writes_every_field_in_order() {
    let snapshot = Snapshot {
        users: vec![UserAccount {
            id: 0x0102,
            name: text("Al"),
            active: true,
            date_of_birth: text("é"),
            address: text(""),
            social_security: 0x0a0b0c0d,
            created_at: at(-1),
            last_accessed: at(258),
        }],
        accounts: vec![CheckingAccount {
            account_owner_id: 0x0102,
            account_type: AccountKind::Checking,
            balance: 700,
            created_at: at(3),
            last_transaction: at(4),
        }],
    };
    let mut expected = MAGIC.to_vec();
    expected.extend_from_slice(&[1, 0, 0, 0, 0, 0, 0, 0]); // one user
    expected.extend_from_slice(&[2, 1, 0, 0, 0, 0, 0, 0]); // id
    expected.push(1); // active
    expected.extend_from_slice(&[0x0d, 0x0c, 0x0b, 0x0a]); // social security
    expected.extend_from_slice(&[0xff; 8]); // created at -1
    expected.extend_from_slice(&[2, 1, 0, 0, 0, 0, 0, 0]); // last accessed at 258
    expected.extend_from_slice(&[2, 0, 0, 0, 0, 0, 0, 0]);
    expected.extend_from_slice(b"Al");
    expected.extend_from_slice(&[2, 0, 0, 0, 0, 0, 0, 0]);
    expected.extend_from_slice(&[0xc3, 0xa9]); // é
    expected.extend_from_slice(&[0; 8]); // empty address
    expected.extend_from_slice(&[1, 0, 0, 0, 0, 0, 0, 0]); // one account
    expected.extend_from_slice(&[2, 1, 0, 0, 0, 0, 0, 0]); // owner
    expected.push(0); // checking
    expected.extend_from_slice(&[0xbc, 0x02, 0, 0, 0, 0, 0, 0]); // balance 700
    expected.extend_from_slice(&[3, 0, 0, 0, 0, 0, 0, 0]);
    expected.extend_from_slice(&[4, 0, 0, 0, 0, 0, 0, 0]);
    assert_eq!(encode(&snapshot), expected);
    assert_eq!(decode(&expected), Ok(snapshot));
}

#[test]
fn decode_gives_back_what_encode_wrote() {
    let snapshot = busy_ledger().snapshot();
    let bytes = encode(&snapshot);
    let back = decode(&bytes).unwrap();
    assert_eq!(back, snapshot);
    assert_eq!(back.users[0].name, "Zoë");
    assert_eq!(back.users[0].address, "東京都 1-2-3");
    assert_eq!(back.users[0].created_at, at(-40));
    assert_eq!(back.users[1].social_security, u32::MAX);
    assert!(!back.users[1].active);
    assert_eq!(back.accounts[1].balance, u64::MAX - 5_000 - 1_234);
    assert_eq!(encode(&back), bytes);
}

#[test]
fn decode_keeps_extreme_values() {
    let snapshot = Snapshot {
        users: vec![UserAccount {
            id: u64::MAX,
            name: text("\u{10ffff}\u{0}"),
            active: false,
            date_of_birth: text("\u{7ff}\u{800}\u{ffff}"),
            address: text("a"),
            social_security: 0,
            created_at: at(i64::MIN),
            last_accessed: at(i64::MAX),
        }],
        accounts: vec![account(u64::MAX, u64::MAX, i64::MAX)],
    };
    assert_eq!(decode(&encode(&snapshot)), Ok(snapshot));
}

#[test]
fn decode_refuses_bytes_that_hold_no_snapshot() {
    let good = encode(&busy_ledger().snapshot());
    assert!(decode(&good).is_ok());
    // Nothing, or too little for the first eight bytes.
    assert_eq!(decode(&[]), Err(Error::CorruptStore));
    assert_eq!(decode(&good[..7]), Err(Error::CorruptStore));
    // Every proper prefix ends early.
    for cut in 0..good.len() {
        assert_eq!(decode(&good[..cut]), Err(Error::CorruptStore));
    }
    // One byte too many.
    let mut longer = good.clone();
    longer.push(0);
    assert_eq!(decode(&longer), Err(Error::CorruptStore));
    // Another first byte, another version.
    let mut other = good.clone();
    other[0] = 0x4d;
    assert_eq!(decode(&other), Err(Error::CorruptStore));
    let mut other = good.clone();
    other[4] = 2;
    assert_eq!(decode(&other), Err(Error::CorruptStore));
    // A count larger than what follows.
    let mut other = good.clone();
    other[8] = 4;
    assert_eq!(decode(&other), Err(Error::CorruptStore));
    let mut other = good.clone();
    other[15] = 0xff;
    assert_eq!(decode(&other), Err(Error::CorruptStore));
    // A flag that is neither 0 nor 1: the first user's flag follows its id.
    let mut other = good.clone();
    other[24] = 2;
    assert_eq!(decode(&other), Err(Error::CorruptStore));
    // A kind that is not 0: the last account's kind, 25 bytes before the end.
    let mut other = good.clone();
    let kind = other.len() - 25;
    assert_eq!(other[kind], 0);
    other[kind] = 1;
    assert_eq!(decode(&other), Err(Error::CorruptStore));
}

#[test]
fn decode_refuses_text_that_is_not_utf8() {
    let snapshot = Snapshot { users: vec![user(1, "ab", 1)], accounts: vec![] };
    let good = encode(&snapshot);
    // The name's two bytes follow the 8 + 8 + 29 + 8 bytes before them.
    assert_eq!(&good[53..55], b"ab");
    for bad in [[0xffu8, 0x61], [0xc3, 0x28], [0x61, 0x80], [0xc0, 0x80], [0xed, 0xa0]] {
        let mut other = good.clone();
        other[53] = bad[0];
        other[54] = bad[1];
        assert_eq!(decode(&other), Err(Error::CorruptStore));
    }
    let mut other = good.clone();
    other[53] = 0xc3;
    other[54] = 0xa9;
    assert_eq!(decode(&other).unwrap().users[0].name, "é");
}

#[test]
fn restore_gives_the_ledger_back() {
    let ledger = busy_ledger();
    let restored = Ledger::restore(ledger.snapshot()).unwrap();
    assert_eq!(restored.snapshot(), ledger.snapshot());
    assert_eq!(restored.last_id(), ledger.last_id());
    assert_eq!(restored.now(), ledger.now());
    assert_eq!(restored.now(), at(25));
    assert_eq!(restored.total_balance(), ledger.total_balance());
}

#[test]
fn restore_continues_after_the_newest_user_and_the_latest_stamp() {
    let snapshot = Snapshot {
        users: vec![user(3, "A", 40), user(7, "B", 30)],
        accounts: vec![account(7, 10, 90), account(3, 5, 2)],
    };
    let mut ledger = Ledger::restore(snapshot).unwrap();
    assert_eq!(ledger.last_id(), 7);
    assert_eq!(ledger.now(), at(90));
    let next = ledger.create_user_at(text("C"), text(""), text(""), 0, at(50)).unwrap();
    assert_eq!(next.id, 8);
    assert_eq!(next.created_at, at(90));
    assert_eq!(Ledger::restore(Snapshot { users: vec![], accounts: vec![] }).unwrap().now(), at(i64::MIN));
}

#[test]
fn restore_refuses_what_is_no_ledger() {
    let good = || Snapshot {
        users: vec![user(1, "A", 5), user(2, "B", 6)],
        accounts: vec![account(1, 10, 7), account(2, 20, 8)],
    };
    assert!(Ledger::restore(good()).is_ok());
    let refused = |snapshot: Snapshot| match Ledger::restore(snapshot) {
        Err(e) => e == Error::CorruptStore,
        Ok(_) => false,
    };
    // An identifier that is zero, repeated, or smaller than the one before.
    let mut s = good();
    s.users[0].id = 0;
    assert!(refused(s));
    let mut s = good();
    s.users[1].id = 1;
    assert!(refused(s));
    let mut s = good();
    s.users[0].id = 5;
    assert!(refused(s));
    // An empty name.
    let mut s = good();
    s.users[1].name = text("");
    assert!(refused(s));
    // An access before the creation.
    let mut s = good();
    s.users[0].last_accessed = at(0);
    assert!(refused(s));
    // A transaction before the creation.
    let mut s = good();
    s.accounts[1].last_transaction = at(1);
    assert!(refused(s));
    // An account without a user.
    let mut s = good();
    s.accounts[0].account_owner_id = 3;
    assert!(refused(s));
    // Two accounts of one user.
    let mut s = good();
    s.accounts[1].account_owner_id = 1;
    assert!(refused(s));
    // Balances that sum to more than 64 bits hold.
    let mut s = good();
    s.accounts[0].balance = u64::MAX;
    s.accounts[1].balance = 1;
    assert!(refused(s));
    let mut s = good();
    s.accounts[0].balance = u64::MAX - 1;
    s.accounts[1].balance = 1;
    assert!(!refused(s));
}

#[test]
fn load_of_save_gives_the_ledger_back() {
    let ledger = busy_ledger();
    let bytes = save(&ledger);
    assert_eq!(bytes, encode(&ledger.snapshot()));
    let loaded = load(Some(&bytes)).unwrap();
    assert_eq!(loaded.snapshot(), ledger.snapshot());
    assert_eq!(loaded.last_id(), ledger.last_id());
    assert_eq!(loaded.now(), ledger.now());
    assert_eq!(save(&loaded), bytes);
}

#[test]
fn load_after_creates_and_transfers_gives_the_same_store() {
    let mut ledger = Ledger::new();
    for round in 0..6u64 {
        ledger.create_user_at(format!("User{}", round + 1), text("d"), text("a"), 9, at(round as i64)).unwrap();
        ledger.create_checking_at(round + 1, at(100 + round as i64)).unwrap();
        ledger.deposit(round + 1, 1_000 * (round + 1)).unwrap();
        if round > 0 {
            ledger.transfer_at(round + 1, round, 100 + round, at(200 + round as i64)).unwrap();
        }
        let loaded = load(Some(&save(&ledger))).unwrap();
        assert_eq!(loaded.snapshot(), ledger.snapshot());
        assert_eq!(loaded.now(), ledger.now());
        assert_eq!(loaded.last_id(), ledger.last_id());
    }
}

#[test]
fn load_without_a_stored_snapshot_is_a_first_start() {
    let ledger = load(None).unwrap();
    assert!(ledger.users().is_empty());
    assert!(ledger.accounts().is_empty());
    assert_eq!(ledger.last_id(), 0);
}

#[test]
fn load_refuses_a_corrupt_store() {
    let refused = |bytes: &[u8]| match load(Some(bytes)) {
        Err(e) => e == Error::CorruptStore,
        Ok(_) => false,
    };
    assert!(refused(&[]));
    assert!(refused(b"{\"user_accounts\": []}"));
    let mut bytes = save(&busy_ledger());
    bytes.pop();
    assert!(refused(&bytes));
    // Bytes that hold a snapshot which is no ledger.
    let orphan = Snapshot { users: vec![], accounts: vec![account(1, 1, 2)] };
    assert!(refused(&encode(&orphan)));
}

fn run(job: &mut SaveJob, results: &[bool]) -> Vec<SaveAction> {
    let mut actions = Vec::new();
    for &ok in results {
        actions.push(job.action());
        job.advance(ok);
    }
    actions
}

#[test]
fn a_save_writes_syncs_and_publishes() {
    let ledger = busy_ledger();
    let mut job = SaveJob::begin(&ledger);
    assert_eq!(job.payload(), &save(&ledger));
    assert_eq!(job.outcome(), None);
    let actions = run(&mut job, &[true, true, true]);
    assert_eq!(actions, vec![SaveAction::WriteStaging, SaveAction::SyncStaging, SaveAction::Publish]);
    assert_eq!(job.outcome(), Some(Ok(())));
    assert_eq!(job.action(), SaveAction::Stop);
    job.advance(false);
    assert_eq!(job.outcome(), Some(Ok(())));
}

#[test]
fn a_failed_save_discards_and_never_publishes() {
    let ledger = busy_ledger();
    for failing in 0..3 {
        let mut job = SaveJob::begin(&ledger);
        let mut results = vec![true; failing];
        results.push(false);
        let mut actions = run(&mut job, &results);
        assert_eq!(job.outcome(), None);
        actions.extend(run(&mut job, &[true]));
        assert_eq!(actions.last(), Some(&SaveAction::DiscardStaging));
        assert_eq!(job.outcome(), Some(Err(Error::PersistenceError)));
        assert_eq!(job.action(), SaveAction::Stop);
        if failing < 2 {
            assert!(!actions.contains(&SaveAction::Publish));
        }
    }
    // The save has failed whether or not the staging copy could be removed.
    let mut job = SaveJob::begin(&ledger);
    run(&mut job, &[false, false]);
    assert_eq!(job.outcome(), Some(Err(Error::PersistenceError)));
}
