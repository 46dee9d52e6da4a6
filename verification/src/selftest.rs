//! A randomized exercise of the ledger: a few users with random particulars
//! and opening balances, and a handful of random transfers between them.
//!
//! Whatever was drawn, the exercise ends in a well-formed ledger that holds
//! as much money as was paid in.

use vstd::prelude::*;
use vstd::string::StringExecFns;
use rand::Rng;
use crate::clock::Timestamp;
use crate::ledger::Ledger;
use crate::model::{
    account_position, has_account, lemma_account_position, lemma_total_push,
    lemma_user_position, total_balance, LedgerView,
};
use crate::rules::{
    law_transfer_moves_amount, lemma_create_checking_wf, lemma_create_user_wf, lemma_deposit_wf,
    lemma_empty_wf, lemma_transfer_wf,
};
use crate::text::{append_decimal, append_numeral, decimal, numeral};

verus! {

/// The particulars of a user to be, and the money to open the account with.
#[derive(Debug, PartialEq, Eq)]
pub struct Profile {
    pub name: String,
    pub date_of_birth: String,
    pub address: String,
    pub social_security: u32,
    pub balance: u64,
}

/// What a `Profile` holds.
pub struct ProfileView {
    pub name: Seq<char>,
    pub date_of_birth: Seq<char>,
    pub address: Seq<char>,
    pub social_security: u32,
    pub balance: u64,
}

impl View for Profile {
    type V = ProfileView;

    open spec fn view(&self) -> ProfileView {
        ProfileView {
            name: self.name@,
            date_of_birth: self.date_of_birth@,
            address: self.address@,
            social_security: self.social_security,
            balance: self.balance,
        }
    }
}

/// A transfer to try.
#[derive(Clone, Copy, Debug, PartialEq, Eq, Structural)]
pub struct Move {
    pub from: u64,
    pub to: u64,
    pub amount: u64,
}

/// The profiles of a sequence.
pub open spec fn profile_views(profiles: Seq<Profile>) -> Seq<ProfileView> {
    Seq::new(profiles.len(), |i: int| profiles[i]@)
}

impl LedgerView {
    /// Adds the user of `profile`, opens the user's checking account and
    /// pays the opening balance in. A step that is refused is left out.
    pub open spec fn enroll(self, profile: ProfileView, reading: Timestamp) -> LedgerView {
        match self.create_user(
            profile.name,
            profile.date_of_birth,
            profile.address,
            profile.social_security,
            reading,
        ) {
            Err(_) => self,
            Ok(with_user) => match with_user.create_checking(with_user.last_id, reading) {
                Err(_) => with_user,
                Ok(with_account) => match with_account.deposit(
                    with_user.last_id,
                    profile.balance,
                ) {
                    Err(_) => with_account,
                    Ok(funded) => funded,
                },
            },
        }
    }

    /// Enrolls the profiles one after the other.
    pub open spec fn enroll_all(self, profiles: Seq<ProfileView>, reading: Timestamp) -> LedgerView
        decreases profiles.len(),
    {
        if profiles.len() == 0 {
            self
        } else {
            self.enroll_all(profiles.drop_last(), reading).enroll(profiles.last(), reading)
        }
    }

    /// Tries one transfer. A transfer that is refused changes nothing.
    pub open spec fn try_move(self, m: Move, reading: Timestamp) -> LedgerView {
        match self.transfer(m.from, m.to, m.amount, reading) {
            Ok(moved) => moved,
            Err(_) => self,
        }
    }

    /// Tries the transfers one after the other.
    pub open spec fn try_moves(self, moves: Seq<Move>, reading: Timestamp) -> LedgerView
        decreases moves.len(),
    {
        if moves.len() == 0 {
            self
        } else {
            self.try_moves(moves.drop_last(), reading).try_move(moves.last(), reading)
        }
    }

    /// How many of the transfers take place when they are tried one after
    /// the other.
    pub open spec fn moves_done(self, moves: Seq<Move>, reading: Timestamp) -> nat
        decreases moves.len(),
    {
        if moves.len() == 0 {
            0
        } else {
            let before = self.try_moves(moves.drop_last(), reading);
            let last = moves.last();
            self.moves_done(moves.drop_last(), reading) + if before.transfer(
                last.from,
                last.to,
                last.amount,
                reading,
            ) is Ok {
                1nat
            } else {
                0nat
            }
        }
    }
}

/// Whatever profile is enrolled, the ledger stays well formed.
pub proof fn law_enroll_keeps_ledger(pre: LedgerView, profile: ProfileView, reading: Timestamp)
    requires
        pre.wf(),
    ensures
        pre.enroll(profile, reading).wf(),
{
    lemma_create_user_wf(
        pre,
        profile.name,
        profile.date_of_birth,
        profile.address,
        profile.social_security,
        reading,
    );
    if let Ok(with_user) = pre.create_user(
        profile.name,
        profile.date_of_birth,
        profile.address,
        profile.social_security,
        reading,
    ) {
        lemma_create_checking_wf(with_user, with_user.last_id, reading);
        if let Ok(with_account) = with_user.create_checking(with_user.last_id, reading) {
            lemma_deposit_wf(with_account, with_user.last_id, profile.balance);
        }
    }
}

/// Trying a transfer keeps the ledger well formed, and changes neither the
/// users, nor which accounts there are and whose, nor the sum of all
/// balances.
pub proof fn lemma_try_move(pre: LedgerView, m: Move, reading: Timestamp)
    requires
        pre.wf(),
    ensures
        pre.try_move(m, reading).wf(),
        pre.try_move(m, reading).users == pre.users,
        pre.try_move(m, reading).last_id == pre.last_id,
        pre.try_move(m, reading).total() == pre.total(),
        same_owners(pre.try_move(m, reading), pre),
{
    lemma_transfer_wf(pre, m.from, m.to, m.amount, reading);
    if pre.transfer(m.from, m.to, m.amount, reading) is Ok {
        law_transfer_moves_amount(pre, m.from, m.to, m.amount, reading);
    }
}

/// The two ledgers have the same accounts but for balances and stamps.
pub open spec fn same_owners(a: LedgerView, b: LedgerView) -> bool {
    &&& a.accounts.len() == b.accounts.len()
    &&& forall|k: int|
        0 <= k < a.accounts.len() ==> (#[trigger] a.accounts[k]).account_owner_id
            == b.accounts[k].account_owner_id
}

/// Whatever transfers are tried, the ledger stays well formed, and neither
/// the users, nor which accounts there are and whose, nor the sum of all
/// balances change.
pub proof fn law_moves_conserve(pre: LedgerView, moves: Seq<Move>, reading: Timestamp)
    requires
        pre.wf(),
    ensures
        pre.try_moves(moves, reading).wf(),
        pre.try_moves(moves, reading).users == pre.users,
        pre.try_moves(moves, reading).last_id == pre.last_id,
        pre.try_moves(moves, reading).total() == pre.total(),
        same_owners(pre.try_moves(moves, reading), pre),
    decreases moves.len(),
{
    if moves.len() > 0 {
        law_moves_conserve(pre, moves.drop_last(), reading);
        lemma_try_move(pre.try_moves(moves.drop_last(), reading), moves.last(), reading);
    }
}

/// Enrolls the user of `profile`: adds the user, opens the user's checking
/// account and pays the opening balance in, each at the instant that the
/// clock hands out for `reading`. A step that is refused is left out.
pub fn enroll(ledger: &mut Ledger, profile: &Profile, reading: Timestamp)
    requires
        old(ledger)@.wf(),
    ensures
        final(ledger)@.wf(),
        final(ledger)@ == old(ledger)@.enroll(profile@, reading),
{
    let created = ledger.create_user_at(
        profile.name.clone(),
        profile.date_of_birth.clone(),
        profile.address.clone(),
        profile.social_security,
        reading,
    );
    if let Ok(user) = created {
        if ledger.create_checking_at(user.id, reading).is_ok() {
            let _ = ledger.deposit(user.id, profile.balance);
        }
    }
}

/// Enrolls the profiles one after the other.
pub fn enroll_all(ledger: &mut Ledger, profiles: &Vec<Profile>, reading: Timestamp)
    requires
        old(ledger)@.wf(),
    ensures
        final(ledger)@.wf(),
        final(ledger)@ == old(ledger)@.enroll_all(profile_views(profiles@), reading),
{
    let ghost all = profile_views(profiles@);
    let mut i: usize = 0;
    while i < profiles.len()
        invariant
            i <= profiles.len(),
            all == profile_views(profiles@),
            ledger@.wf(),
            ledger@ == old(ledger)@.enroll_all(all.take(i as int), reading),
        decreases profiles.len() - i,
    {
        enroll(ledger, &profiles[i], reading);
        proof {
            let next = all.take(i + 1);
            assert(next.drop_last() =~= all.take(i as int));
            assert(next.last() == profiles[i as int]@);
        }
        i = i + 1;
    }
    assert(all.take(i as int) =~= all);
}

/// Tries the transfers one after the other, each at the instant that the
/// clock hands out for `reading`. A transfer that is refused changes
/// nothing. Returns how many took place.
pub fn try_moves(ledger: &mut Ledger, moves: &Vec<Move>, reading: Timestamp) -> (done: usize)
    requires
        old(ledger)@.wf(),
    ensures
        final(ledger)@.wf(),
        final(ledger)@ == old(ledger)@.try_moves(moves@, reading),
        final(ledger)@.total() == old(ledger)@.total(),
        done == old(ledger)@.moves_done(moves@, reading),
{
    let mut done: usize = 0;
    let mut i: usize = 0;
    while i < moves.len()
        invariant
            i <= moves.len(),
            done <= i,
            ledger@.wf(),
            ledger@ == old(ledger)@.try_moves(moves@.take(i as int), reading),
            done == old(ledger)@.moves_done(moves@.take(i as int), reading),
        decreases moves.len() - i,
    {
        let m = moves[i];
        proof {
            let next = moves@.take(i + 1);
            assert(next.drop_last() =~= moves@.take(i as int));
            assert(next.last() == m);
        }
        if ledger.transfer_at(m.from, m.to, m.amount, reading).is_ok() {
            done = done + 1;
        }
        i = i + 1;
    }
    proof {
        assert(moves@.take(i as int) =~= moves@);
        law_moves_conserve(old(ledger)@, moves@, reading);
    }
    done
}

/// The name of the user that is enrolled as number `number`.
pub open spec fn user_name(number: nat) -> Seq<char> {
    "User"@ + numeral(number)
}

/// A date of birth in the 1990s: day and month in two digits each.
pub open spec fn birth_text(month: nat, day: nat, year: nat) -> Seq<char> {
    decimal(month, 2) + "/"@ + decimal(day, 2) + "/199"@ + decimal(year, 1)
}

/// An address in Random Street.
pub open spec fn street_text(house: nat) -> Seq<char> {
    decimal(house, 3) + " Random St"@
}

/// What every drawn profile satisfies.
pub open spec fn drawn(profile: ProfileView, number: nat) -> bool {
    &&& profile.name == user_name(number)
    &&& exists|month: nat, day: nat, year: nat|
        1 <= month <= 12 && 1 <= day <= 28 && year <= 9 && profile.date_of_birth == #[trigger] birth_text(
            month,
            day,
            year,
        )
    &&& exists|house: nat| 100 <= house <= 999 && profile.address == #[trigger] street_text(house)
    &&& 100_000_000 <= profile.social_security <= 999_999_999
    &&& 1_000 <= profile.balance <= 10_000
}

/// What every drawn transfer satisfies: it runs between two of the users 1
/// to `users`, which may be the same, and moves between 100 and 500.
pub open spec fn drawn_move(m: Move, users: nat) -> bool {
    &&& 1 <= m.from <= users
    &&& 1 <= m.to <= users
    &&& 100 <= m.amount <= 500
}

/// `ledger` is what the exercise with `users` users and `rounds` rounds
/// leaves where it draws `profiles` and `moves` and reads `reading` from
/// the clock.
pub open spec fn exercised(
    ledger: LedgerView,
    users: nat,
    rounds: nat,
    profiles: Seq<ProfileView>,
    moves: Seq<Move>,
    reading: Timestamp,
) -> bool {
    &&& profiles.len() == users
    &&& forall|i: int| 0 <= i < profiles.len() ==> drawn(#[trigger] profiles[i], (i + 1) as nat)
    &&& moves.len() == if users >= 1 {
        rounds
    } else {
        0
    }
    &&& forall|j: int| 0 <= j < moves.len() ==> drawn_move(#[trigger] moves[j], users)
    &&& ledger == LedgerView::empty().enroll_all(profiles, reading).try_moves(moves, reading)
}

/// Calls `rand::thread_rng` and, on the generator that it gives,
/// `Rng::gen_range` with the inclusive range from `low` to `high`.
///
/// Taken on trust: the number drawn lies in the range. `gen_range` panics
/// on an empty range, which `low <= high` rules out. Nothing is claimed of
/// which number is drawn.
#[verifier::external_body]
fn random_between(low: u64, high: u64) -> (r: u64)
    requires
        low <= high,
    ensures
        low <= r <= high,
{
    rand::thread_rng().gen_range(low..=high)
}

/// Draws the profile of user number `number`: a birthday in the 1990s, a
/// house in Random Street, a social security number of nine digits and an
/// opening balance between 1000 and 10000.
pub fn draw_profile(number: u64) -> (profile: Profile)
    ensures
        drawn(profile@, number as nat),
{
    let mut name = String::from_str("User");
    append_numeral(&mut name, number);
    let month: u64 = random_between(1, 12);
    let day: u64 = random_between(1, 28);
    let year: u64 = random_between(0, 9);
    let mut date_of_birth = String::new();
    append_decimal(&mut date_of_birth, month, 2);
    date_of_birth.append("/");
    append_decimal(&mut date_of_birth, day, 2);
    date_of_birth.append("/199");
    append_decimal(&mut date_of_birth, year, 1);
    let house: u64 = random_between(100, 999);
    let mut address = String::new();
    append_decimal(&mut address, house, 3);
    address.append(" Random St");
    let social_security: u32 = random_between(100_000_000, 999_999_999) as u32;
    let balance: u64 = random_between(1_000, 10_000);
    proof {
        assert(date_of_birth@ =~= birth_text(month as nat, day as nat, year as nat));
        assert(address@ =~= street_text(house as nat));
    }
    Profile { name, date_of_birth, address, social_security, balance }
}

/// Draws a transfer between two of the users 1 to `users`, of an amount
/// between 100 and 500. The two may be the same.
pub fn draw_move(users: u64) -> (m: Move)
    requires
        users >= 1,
    ensures
        drawn_move(m, users as nat),
{
    let from: u64 = random_between(1, users);
    let to: u64 = random_between(1, users);
    let amount: u64 = random_between(100, 500);
    Move { from, to, amount }
}


/// What holds of a ledger in which `count` drawn profiles were enrolled:
/// user number `i` carries the identifier `i`, is active and owns account
/// number `i`, which holds the opening balance; between 1000 and 10000 was
/// paid in for each.
pub open spec fn enrolled(ledger: LedgerView, profiles: Seq<ProfileView>) -> bool {
    &&& ledger.wf()
    &&& ledger.users.len() == profiles.len()
    &&& ledger.accounts.len() == profiles.len()
    &&& forall|i: int|
        0 <= i < profiles.len() ==> {
            &&& (#[trigger] ledger.users[i]).id == i + 1
            &&& ledger.users[i].active
            &&& ledger.users[i].name == profiles[i].name
            &&& ledger.users[i].date_of_birth == profiles[i].date_of_birth
            &&& ledger.users[i].address == profiles[i].address
            &&& ledger.users[i].social_security == profiles[i].social_security
        }
    &&& forall|k: int|
        0 <= k < profiles.len() ==> {
            &&& (#[trigger] ledger.accounts[k]).account_owner_id == k + 1
            &&& ledger.accounts[k].balance == profiles[k].balance
        }
    &&& 1_000 * profiles.len() <= ledger.total() <= 10_000 * profiles.len()
}

/// Enrolling drawn profiles in an empty ledger refuses no step: every user
/// is added under the next identifier with an account that holds the
/// opening balance.
pub proof fn law_enroll_drawn(profiles: Seq<ProfileView>, reading: Timestamp)
    requires
        profiles.len() <= u32::MAX,
        forall|i: int| 0 <= i < profiles.len() ==> drawn(#[trigger] profiles[i], (i + 1) as nat),
    ensures
        enrolled(LedgerView::empty().enroll_all(profiles, reading), profiles),
    decreases profiles.len(),
{
    let empty = LedgerView::empty();
    if profiles.len() == 0 {
        lemma_empty_wf();
        assert(total_balance(empty.accounts) == 0);
    } else {
        let front = profiles.drop_last();
        let profile = profiles.last();
        let number = profiles.len() as u64;
        assert forall|i: int| 0 <= i < front.len() implies drawn(
            #[trigger] front[i],
            (i + 1) as nat,
        ) by {
            assert(front[i] == profiles[i]);
        }
        law_enroll_drawn(front, reading);
        let pre = empty.enroll_all(front, reading);
        assert(drawn(profiles[profiles.len() - 1], number as nat));
        // The name is not empty: it ends in a digit.
        assert(profile.name.len() > 0) by {
            reveal_with_fuel(decimal, 2);
            assert(numeral(number as nat).len() > 0);
        }
        assert(pre.last_id == number - 1) by {
            if front.len() > 0 {
                assert(pre.users[front.len() - 1].id == front.len());
            }
        }
        let with_user = pre.create_user(
            profile.name,
            profile.date_of_birth,
            profile.address,
            profile.social_security,
            reading,
        )->Ok_0;
        lemma_create_user_wf(
            pre,
            profile.name,
            profile.date_of_birth,
            profile.address,
            profile.social_security,
            reading,
        );
        // The new user exists, is active, and has no account yet.
        assert(with_user.users[number - 1].id == number);
        lemma_user_position(with_user.users, number - 1);
        assert(!has_account(with_user.accounts, number)) by {
            if has_account(with_user.accounts, number) {
                let k = account_position(with_user.accounts, number);
                assert(pre.accounts[k].account_owner_id == k + 1);
            }
        }
        let with_account = with_user.create_checking(number, reading)->Ok_0;
        lemma_create_checking_wf(with_user, number, reading);
        lemma_total_push(with_user.accounts, with_account.accounts.last());
        // The opening balance fits.
        assert(with_account.accounts[number - 1].account_owner_id == number);
        lemma_account_position(with_account.accounts, number - 1);
        let funded = with_account.deposit(number, profile.balance)->Ok_0;
        lemma_deposit_wf(with_account, number, profile.balance);
        assert(funded == pre.enroll(profile, reading));
        assert forall|i: int| 0 <= i < profiles.len() implies {
            &&& (#[trigger] funded.users[i]).id == i + 1
            &&& funded.users[i].active
            &&& funded.users[i].name == profiles[i].name
            &&& funded.users[i].date_of_birth == profiles[i].date_of_birth
            &&& funded.users[i].address == profiles[i].address
            &&& funded.users[i].social_security == profiles[i].social_security
        } by {
            if i < front.len() {
                assert(funded.users[i] == pre.users[i]);
                assert(front[i] == profiles[i]);
            }
        }
        assert forall|k: int| 0 <= k < profiles.len() implies {
            &&& (#[trigger] funded.accounts[k]).account_owner_id == k + 1
            &&& funded.accounts[k].balance == profiles[k].balance
        } by {
            if k < front.len() {
                assert(funded.accounts[k] == pre.accounts[k]);
                assert(front[k] == profiles[k]);
            }
        }
    }
}

/// Whatever is drawn, the exercise leaves a well-formed ledger in which
/// user number `i` carries the identifier `i`, is active and owns account
/// number `i`, and which holds what was paid in: between 1000 and 10000 for
/// each user.
pub proof fn law_exercise_is_sound(
    ledger: LedgerView,
    users: nat,
    rounds: nat,
    profiles: Seq<ProfileView>,
    moves: Seq<Move>,
    reading: Timestamp,
)
    requires
        users <= u32::MAX,
        exercised(ledger, users, rounds, profiles, moves, reading),
    ensures
        ledger.wf(),
        ledger.users.len() == users,
        ledger.accounts.len() == users,
        forall|i: int|
            0 <= i < users ==> (#[trigger] ledger.users[i]).id == i + 1 && ledger.users[i].active
                && ledger.users[i].name == user_name((i + 1) as nat),
        forall|k: int| 0 <= k < users ==> (#[trigger] ledger.accounts[k]).account_owner_id == k + 1,
        1_000 * users <= ledger.total() <= 10_000 * users,
{
    let paid_in = LedgerView::empty().enroll_all(profiles, reading);
    law_enroll_drawn(profiles, reading);
    law_moves_conserve(paid_in, moves, reading);
    assert forall|i: int| 0 <= i < users implies (#[trigger] ledger.users[i]).id == i + 1
        && ledger.users[i].active && ledger.users[i].name == user_name((i + 1) as nat) by {
        assert(paid_in.users[i].name == profiles[i].name);
        assert(drawn(profiles[i], (i + 1) as nat));
    }
    assert forall|k: int| 0 <= k < users implies (#[trigger] ledger.accounts[k]).account_owner_id
        == k + 1 by {
        assert(paid_in.accounts[k].account_owner_id == k + 1);
    }
}

/// The exercise: enrolls `users` drawn users in an empty ledger and, where
/// there is a user, tries `rounds` drawn transfers between them, all at one
/// reading of the system clock.
///
/// Whatever was drawn: user number `i` carries the identifier `i`, is
/// active and owns account number `i`; and the ledger holds what was paid
/// in, between 1000 and 10000 for each user.
pub fn exercise(users: u32, rounds: usize) -> (ledger: Ledger)
    ensures
        exists|profiles: Seq<ProfileView>, moves: Seq<Move>, reading: Timestamp|
            reading.micros >= 0 && exercised(
                ledger@,
                users as nat,
                rounds as nat,
                profiles,
                moves,
                reading,
            ),
        ledger@.wf(),
        ledger@.users.len() == users,
        ledger@.accounts.len() == users,
        forall|i: int|
            0 <= i < users ==> (#[trigger] ledger@.users[i]).id == i + 1
                && ledger@.users[i].active && ledger@.users[i].name == user_name((i + 1) as nat),
        forall|k: int| 0 <= k < users ==> (#[trigger] ledger@.accounts[k]).account_owner_id == k + 1,
        1_000 * users <= ledger@.total() <= 10_000 * users,
{
    let reading = Timestamp::now();
    let mut profiles: Vec<Profile> = Vec::new();
    let mut number: u32 = 0;
    while number < users
        invariant
            number <= users,
            profiles.len() == number,
            forall|i: int|
                0 <= i < number ==> drawn(#[trigger] profile_views(profiles@)[i], (i + 1) as nat),
        decreases users - number,
    {
        number = number + 1;
        let profile = draw_profile(number as u64);
        let ghost before = profile_views(profiles@);
        profiles.push(profile);
        assert(profile_views(profiles@) =~= before.push(profile@));
    }
    let mut moves: Vec<Move> = Vec::new();
    let mut round: usize = 0;
    while users >= 1 && round < rounds
        invariant
            round <= rounds,
            moves.len() == round,
            forall|j: int| 0 <= j < round ==> drawn_move(#[trigger] moves[j], users as nat),
        decreases rounds - round,
    {
        moves.push(draw_move(users as u64));
        round = round + 1;
    }
    let mut ledger = Ledger::new();
    enroll_all(&mut ledger, &profiles, reading);
    try_moves(&mut ledger, &moves, reading);
    proof {
        assert(exercised(
            ledger@,
            users as nat,
            rounds as nat,
            profile_views(profiles@),
            moves@,
            reading,
        ));
        law_exercise_is_sound(
            ledger@,
            users as nat,
            rounds as nat,
            profile_views(profiles@),
            moves@,
            reading,
        );
    }
    ledger
}

/// The exercise with three users and five transfers.
pub fn run_test_case() -> (ledger: Ledger)
    ensures
        exists|profiles: Seq<ProfileView>, moves: Seq<Move>, reading: Timestamp|
            reading.micros >= 0 && exercised(ledger@, 3, 5, profiles, moves, reading),
        ledger@.wf(),
        ledger@.users.len() == 3,
        ledger@.accounts.len() == 3,
        forall|i: int|
            0 <= i < 3 ==> (#[trigger] ledger@.users[i]).id == i + 1 && ledger@.users[i].active
                && ledger@.users[i].name == user_name((i + 1) as nat),
        forall|k: int| 0 <= k < 3 ==> (#[trigger] ledger@.accounts[k]).account_owner_id == k + 1,
        3_000 <= ledger@.total() <= 30_000,
{
    exercise(3, 5)
}

} // verus!
