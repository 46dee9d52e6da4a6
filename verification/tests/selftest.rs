use bank_ledger::selftest::{
    draw_move, draw_profile, enroll, enroll_all, exercise, run_test_case, try_moves, Move, Profile,
};
use bank_ledger::text::{append_decimal, append_numeral, count_digits};
use bank_ledger::{Ledger, Timestamp};

fn at(micros: i64) -> Timestamp {
    Timestamp::from_micros(micros)
}

fn profile(name: &str, balance: u64) -> Profile {
    Profile {
        name: name.to_string(),
        date_of_birth: "07/08/1993".to_string(),
        address: "456 Random St".to_string(),
        social_security: 555_000_111,
        balance,
    }
}

fn decimal(n: u64, width: u8) -> String {
    let mut out = String::from("n=");
    append_decimal(&mut out, n, width);
    out
}

#[test]
fn decimal_pads_and_cuts_to_the_width() {
    assert_eq!(decimal(7, 1), "n=7");
    assert_eq!(decimal(7, 2), "n=07");
    assert_eq!(decimal(12, 2), "n=12");
    assert_eq!(decimal(0, 3), "n=000");
    assert_eq!(decimal(999, 3), "n=999");
    assert_eq!(decimal(1234, 2), "n=34");
    assert_eq!(decimal(5, 0), "n=");
    assert_eq!(decimal(1234567890, 10), "n=1234567890");
    assert_eq!(decimal(u64::MAX, 20), "n=18446744073709551615");
    assert_eq!(decimal(u64::MAX, 22), "n=0018446744073709551615");
}

#[test]
fn numerals_have_no_zeros_in_front() {
    for (n, expected) in [
        (0u64, "0"),
        (9, "9"),
        (10, "10"),
        (99, "99"),
        (100, "100"),
        (1990, "1990"),
        (999_999_999, "999999999"),
        (10_000_000_000_000_000_000, "10000000000000000000"),
        (u64::MAX, "18446744073709551615"),
    ] {
        let mut out = String::new();
        append_numeral(&mut out, n);
        assert_eq!(out, expected);
        assert_eq!(count_digits(n) as usize, expected.len());
    }
}

#[test]
fn enroll_adds_user_account_and_balance() {
    let mut ledger = Ledger::new();
    enroll(&mut ledger, &profile("Ann", 1_500), at(10));
    assert_eq!(ledger.users().len(), 1);
    let user = &ledger.users()[0];
    assert_eq!(user.id, 1);
    assert_eq!(user.name, "Ann");
    assert_eq!(user.date_of_birth, "07/08/1993");
    assert_eq!(user.address, "456 Random St");
    assert_eq!(user.social_security, 555_000_111);
    assert!(user.active);
    assert_eq!(user.created_at, at(10));
    let account = ledger.get_checking(1).unwrap();
    assert_eq!(account.balance, 1_500);
    assert_eq!(account.created_at, at(10));
}

#[test]
fn enroll_leaves_out_what_is_refused() {
    let mut ledger = Ledger::new();
    // No name: nothing happens.
    enroll(&mut ledger, &profile("", 100), at(10));
    assert!(ledger.users().is_empty());
    assert_eq!(ledger.now(), at(i64::MIN));
    // No money: the account stays empty.
    enroll(&mut ledger, &profile("Ann", 0), at(11));
    assert_eq!(ledger.get_checking(1).unwrap().balance, 0);
    // More money than fits: the account stays empty.
    enroll(&mut ledger, &profile("Bob", u64::MAX), at(12));
    enroll(&mut ledger, &profile("Cyd", 1), at(13));
    assert_eq!(ledger.get_checking(2).unwrap().balance, u64::MAX);
    assert_eq!(ledger.get_checking(3).unwrap().balance, 0);
    assert_eq!(ledger.users().len(), 3);
}

#[test]
fn enroll_all_and_try_moves_give_exact_balances() {
    let mut ledger = Ledger::new();
    let profiles = vec![profile("A", 1_000), profile("B", 2_000), profile("C", 3_000)];
    enroll_all(&mut ledger, &profiles, at(10));
    assert_eq!(ledger.users().len(), 3);
    assert_eq!(ledger.total_balance(), 6_000);
    let moves = vec![
        Move { from: 1, to: 2, amount: 400 },
        Move { from: 2, to: 2, amount: 100 },
        Move { from: 3, to: 1, amount: 5_000 },
        Move { from: 3, to: 1, amount: 500 },
        Move { from: 4, to: 1, amount: 100 },
        Move { from: 2, to: 3, amount: 2_400 },
    ];
    let done = try_moves(&mut ledger, &moves, at(20));
    assert_eq!(done, 3);
    assert_eq!(ledger.get_checking(1).unwrap().balance, 1_100);
    assert_eq!(ledger.get_checking(2).unwrap().balance, 0);
    assert_eq!(ledger.get_checking(3).unwrap().balance, 4_900);
    assert_eq!(ledger.total_balance(), 6_000);
    assert_eq!(try_moves(&mut ledger, &vec![], at(30)), 0);
    assert_eq!(ledger.now(), at(20));
}

fn number(text: &str) -> u64 {
    assert!(text.bytes().all(|b| b.is_ascii_digit()), "not a number: {}", text);
    text.parse().unwrap()
}

#[test]
fn drawn_profiles_have_the_documented_shape() {
    let mut balances = Vec::new();
    for round in 0..200u64 {
        let n = round % 9 + 1;
        let p = draw_profile(n);
        assert_eq!(p.name, format!("User{}", n));
        let birth: Vec<&str> = p.date_of_birth.split('/').collect();
        assert_eq!(birth.len(), 3);
        assert_eq!(birth[0].len(), 2);
        assert_eq!(birth[1].len(), 2);
        assert_eq!(birth[2].len(), 4);
        assert!((1..=12).contains(&number(birth[0])));
        assert!((1..=28).contains(&number(birth[1])));
        assert!((1990..=1999).contains(&number(birth[2])));
        let (house, street) = p.address.split_at(3);
        assert!((100..=999).contains(&number(house)));
        assert_eq!(street, " Random St");
        assert!((100_000_000..=999_999_999).contains(&p.social_security));
        assert!((1_000..=10_000).contains(&p.balance));
        balances.push(p.balance);
    }
    // The draws differ.
    assert!(balances.iter().any(|b| *b != balances[0]));
}

#[test]
fn drawn_moves_stay_in_range_and_vary() {
    let mut moves = Vec::new();
    for _ in 0..300 {
        let m = draw_move(3);
        assert!((1..=3).contains(&m.from));
        assert!((1..=3).contains(&m.to));
        assert!((100..=500).contains(&m.amount));
        moves.push(m);
    }
    assert!(moves.iter().any(|m| m.from != 1));
    assert!(moves.iter().any(|m| m.to != 1));
    assert!(moves.iter().any(|m| m.amount != 100));
    assert!(moves.iter().any(|m| m.from != m.to));
    assert_eq!(draw_move(1).from, 1);
    assert_eq!(draw_move(1).to, 1);
}

#[test]
fn the_test_case_ends_in_a_sound_ledger() {
    for _ in 0..50 {
        let ledger = run_test_case();
        assert_eq!(ledger.users().len(), 3);
        assert_eq!(ledger.accounts().len(), 3);
        for i in 0..3 {
            let user = &ledger.users()[i];
            assert_eq!(user.id, i as u64 + 1);
            assert_eq!(user.name, format!("User{}", i + 1));
            assert!(user.active);
            assert_eq!(ledger.accounts()[i].account_owner_id, i as u64 + 1);
        }
        let total = ledger.total_balance();
        assert!((3_000..=30_000).contains(&total));
        // What was saved can be loaded again.
        let loaded = bank_ledger::load(Some(&bank_ledger::save(&ledger))).unwrap();
        assert_eq!(loaded.snapshot(), ledger.snapshot());
    }
}

#[test]
fn the_exercise_takes_any_size() {
    let empty = exercise(0, 10);
    assert!(empty.users().is_empty());
    assert_eq!(empty.total_balance(), 0);
    let one = exercise(1, 10);
    assert_eq!(one.users().len(), 1);
    assert!((1_000..=10_000).contains(&one.total_balance()));
    let many = exercise(40, 200);
    assert_eq!(many.users().len(), 40);
    assert_eq!(many.users()[39].id, 40);
    assert_eq!(many.users()[39].name, "User40");
    assert_eq!(many.users()[8].name, "User9");
    assert_eq!(many.users()[9].name, "User10");
    assert!((40_000..=400_000).contains(&many.total_balance()));
}
