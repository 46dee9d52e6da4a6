//! The ledger store: the one owner of all user and account records.

use vstd::prelude::*;
use crate::account::{AccountKind, CheckingAccount, UserAccount};
use crate::clock::{Clock, Timestamp};
use crate::error::Error;
use crate::ids::IdAllocator;
use crate::model::{
    has_account, has_user, lemma_account_position, lemma_total_bounds, lemma_total_prefix,
    lemma_user_position, records, total_balance, LedgerView,
};
use crate::rules::{
    lemma_create_checking_wf, lemma_create_user_wf, lemma_deposit_wf, lemma_empty_wf,
    lemma_set_active_wf, lemma_touch_user_wf,
};

verus! {

/// The users and checking accounts of one bank, with the allocator that
/// names new users and the clock that stamps every change.
///
/// A `&mut Ledger` is exclusive: nothing can watch an operation half done.
pub struct Ledger {
    pub(crate) users: Vec<UserAccount>,
    pub(crate) accounts: Vec<CheckingAccount>,
    pub(crate) ids: IdAllocator,
    pub(crate) clock: Clock,
}

impl View for Ledger {
    type V = LedgerView;

    open(crate) spec fn view(&self) -> LedgerView {
        LedgerView {
            users: records(self.users@),
            accounts: self.accounts@,
            last_id: self.ids.high_water(),
            now: self.clock.latest(),
        }
    }
}

/// The ledger went from `pre` to `post` as `outcome` says, and `r` reports
/// the same: the new state on success, the same error and an unchanged
/// ledger otherwise.
pub open spec fn agrees<T>(
    pre: LedgerView,
    post: LedgerView,
    outcome: Result<LedgerView, Error>,
    r: Result<T, Error>,
) -> bool {
    match outcome {
        Ok(next) => post == next && r is Ok,
        Err(e) => post == pre && r is Err && r->Err_0 == e,
    }
}

impl Ledger {
    /// A ledger without users or accounts, whose clock has handed out
    /// nothing yet.
    pub fn new() -> (ledger: Ledger)
        ensures
            ledger@ == LedgerView::empty(),
            ledger@.wf(),
    {
        let ledger = Ledger {
            users: Vec::new(),
            accounts: Vec::new(),
            ids: IdAllocator::new(),
            clock: Clock::new(),
        };
        proof {
            assert(ledger@.users =~= Seq::empty());
            lemma_empty_wf();
        }
        ledger
    }

    /// The users, in the order of their creation.
    pub fn users(&self) -> (users: &Vec<UserAccount>)
        ensures
            records(users@) == self@.users,
    {
        &self.users
    }

    /// The checking accounts, in the order of their creation.
    pub fn accounts(&self) -> (accounts: &Vec<CheckingAccount>)
        ensures
            accounts@ == self@.accounts,
    {
        &self.accounts
    }

    /// The largest identifier handed out so far; 0 when none has been.
    pub fn last_id(&self) -> (id: u64)
        ensures
            id == self@.last_id,
    {
        self.ids.last_issued()
    }

    /// The latest instant that the ledger's clock has handed out.
    pub fn now(&self) -> (t: Timestamp)
        ensures
            t == self@.now,
    {
        self.clock.current()
    }

    /// The place of the user `id` among the users.
    pub fn find_user(&self, id: u64) -> (place: Option<usize>)
        ensures
            place matches Some(i) ==> i < self@.users.len() && self@.users[i as int].id == id,
            place is Some <==> has_user(self@.users, id),
    {
        find_user_in(&self.users, id)
    }

    /// The place of the account of `owner_id` among the accounts.
    pub fn find_account(&self, owner_id: u64) -> (place: Option<usize>)
        ensures
            place matches Some(k) ==> k < self@.accounts.len() && self@.accounts[k as
                int].account_owner_id == owner_id,
            place is Some <==> has_account(self@.accounts, owner_id),
    {
        assert(self.accounts@.take(self.accounts.len() as int) =~= self.accounts@);
        find_account_in(&self.accounts, self.accounts.len(), owner_id)
    }

    /// The sum of all balances.
    pub fn total_balance(&self) -> (total: u64)
        requires
            self@.wf(),
        ensures
            total == self@.total(),
    {
        let mut total: u64 = 0;
        let mut k: usize = 0;
        while k < self.accounts.len()
            invariant
                k <= self.accounts.len(),
                total == total_balance(self.accounts@.take(k as int)),
                total_balance(self.accounts@) <= u64::MAX,
            decreases self.accounts.len() - k,
        {
            proof {
                let next = self.accounts@.take(k + 1);
                assert(next.drop_last() =~= self.accounts@.take(k as int));
                lemma_total_prefix(self.accounts@, k + 1);
            }
            total = total + self.accounts[k].balance;
            k = k + 1;
        }
        assert(self.accounts@.take(k as int) =~= self.accounts@);
        total
    }

    /// Adds a user under the next identifier: active, created and last
    /// accessed at the instant that the clock hands out for `reading`.
    /// Returns a copy of the new record.
    pub fn create_user_at(
        &mut self,
        name: String,
        date_of_birth: String,
        address: String,
        social_security: u32,
        reading: Timestamp,
    ) -> (r: Result<UserAccount, Error>)
        requires
            old(self)@.wf(),
        ensures
            final(self)@.wf(),
            agrees(
                old(self)@,
                final(self)@,
                old(self)@.create_user(name@, date_of_birth@, address@, social_security, reading),
                r,
            ),
            r matches Ok(user) ==> user@ == final(self)@.users.last(),
            r is Err ==> *final(self) == *old(self),
    {
        if name.as_str().is_empty() {
            return Err(Error::InvalidName);
        }
        match self.ids.allocate() {
            None => Err(Error::IdsExhausted),
            Some(id) => {
                let now = self.clock.observe(reading);
                let user = UserAccount {
                    id,
                    name,
                    active: true,
                    date_of_birth,
                    address,
                    social_security,
                    created_at: now,
                    last_accessed: now,
                };
                let copy = user.clone();
                self.users.push(user);
                proof {
                    let post = old(self)@.create_user(
                        name@,
                        date_of_birth@,
                        address@,
                        social_security,
                        reading,
                    )->Ok_0;
                    assert(self@.users =~= post.users);
                    lemma_create_user_wf(
                        old(self)@,
                        name@,
                        date_of_birth@,
                        address@,
                        social_security,
                        reading,
                    );
                }
                Ok(copy)
            },
        }
    }

    /// `create_user_at`, with a reading of the system clock.
    pub fn create_user(
        &mut self,
        name: String,
        date_of_birth: String,
        address: String,
        social_security: u32,
    ) -> (r: Result<UserAccount, Error>)
        requires
            old(self)@.wf(),
        ensures
            final(self)@.wf(),
            exists|reading: Timestamp|
                reading.micros >= 0 && agrees(
                    old(self)@,
                    final(self)@,
                    #[trigger] old(self)@.create_user(
                        name@,
                        date_of_birth@,
                        address@,
                        social_security,
                        reading,
                    ),
                    r,
                ),
            r matches Ok(user) ==> user@ == final(self)@.users.last(),
            r is Err ==> *final(self) == *old(self),
    {
        let reading = Timestamp::now();
        self.create_user_at(name, date_of_birth, address, social_security, reading)
    }

    /// Opens an empty checking account for `owner_id`, created at the
    /// instant that the clock hands out for `reading`.
    pub fn create_checking_at(&mut self, owner_id: u64, reading: Timestamp) -> (r: Result<
        CheckingAccount,
        Error,
    >)
        requires
            old(self)@.wf(),
        ensures
            final(self)@.wf(),
            agrees(old(self)@, final(self)@, old(self)@.create_checking(owner_id, reading), r),
            r matches Ok(account) ==> account == final(self)@.accounts.last(),
            r is Err ==> *final(self) == *old(self),
    {
        let place = self.find_user(owner_id);
        match place {
            None => Err(Error::OwnerNotFound),
            Some(i) => {
                proof {
                    lemma_user_position(self@.users, i as int);
                }
                if self.find_account(owner_id).is_some() {
                    return Err(Error::DuplicateAccount);
                }
                if !self.users[i].active {
                    return Err(Error::InactiveAccount { owner_id });
                }
                let now = self.clock.observe(reading);
                let account = CheckingAccount {
                    account_owner_id: owner_id,
                    account_type: AccountKind::Checking,
                    balance: 0,
                    created_at: now,
                    last_transaction: now,
                };
                self.accounts.push(account);
                proof {
                    lemma_create_checking_wf(old(self)@, owner_id, reading);
                }
                Ok(account)
            },
        }
    }

    /// `create_checking_at`, with a reading of the system clock.
    pub fn create_checking(&mut self, owner_id: u64) -> (r: Result<CheckingAccount, Error>)
        requires
            old(self)@.wf(),
        ensures
            final(self)@.wf(),
            exists|reading: Timestamp|
                reading.micros >= 0 && agrees(
                    old(self)@,
                    final(self)@,
                    #[trigger] old(self)@.create_checking(owner_id, reading),
                    r,
                ),
            r matches Ok(account) ==> account == final(self)@.accounts.last(),
            r is Err ==> *final(self) == *old(self),
    {
        let reading = Timestamp::now();
        self.create_checking_at(owner_id, reading)
    }

    /// Looks the user `id` up, marks the record as accessed at the instant
    /// that the clock hands out for `reading`, and returns a copy of it.
    pub fn get_user_at(&mut self, id: u64, reading: Timestamp) -> (r: Result<UserAccount, Error>)
        requires
            old(self)@.wf(),
        ensures
            final(self)@.wf(),
            agrees(old(self)@, final(self)@, old(self)@.touch_user(id, reading), r),
            r matches Ok(user) ==> user@ == final(self)@.user(id),
            r is Err ==> *final(self) == *old(self),
    {
        match self.find_user(id) {
            None => Err(Error::OwnerNotFound),
            Some(i) => {
                let now = self.clock.observe(reading);
                self.users[i].last_accessed = now;
                let copy = self.users[i].clone();
                proof {
                    lemma_user_position(old(self)@.users, i as int);
                    let post = old(self)@.touch_user(id, reading)->Ok_0;
                    assert(self@.users =~= post.users);
                    lemma_touch_user_wf(old(self)@, id, reading);
                    lemma_user_position(self@.users, i as int);
                }
                Ok(copy)
            },
        }
    }

    /// `get_user_at`, with a reading of the system clock.
    pub fn get_user(&mut self, id: u64) -> (r: Result<UserAccount, Error>)
        requires
            old(self)@.wf(),
        ensures
            final(self)@.wf(),
            exists|reading: Timestamp|
                reading.micros >= 0 && agrees(old(self)@, final(self)@, #[trigger] old(self)@.touch_user(id, reading), r),
            r matches Ok(user) ==> user@ == final(self)@.user(id),
            r is Err ==> *final(self) == *old(self),
    {
        let reading = Timestamp::now();
        self.get_user_at(id, reading)
    }

    /// The checking account of `owner_id`. The ledger is not changed.
    pub fn get_checking(&self, owner_id: u64) -> (r: Result<CheckingAccount, Error>)
        requires
            self@.wf(),
        ensures
            has_account(self@.accounts, owner_id) ==> r == Ok::<CheckingAccount, Error>(
                self@.account(owner_id),
            ),
            !has_account(self@.accounts, owner_id) ==> r == Err::<CheckingAccount, Error>(
                Error::AccountNotFound { owner_id },
            ),
    {
        match self.find_account(owner_id) {
            None => Err(Error::AccountNotFound { owner_id }),
            Some(k) => {
                proof {
                    lemma_account_position(self@.accounts, k as int);
                }
                Ok(self.accounts[k])
            },
        }
    }

    /// Sets whether the user `id` is active, and marks the record as
    /// accessed at the instant that the clock hands out for `reading`.
    pub fn set_active_at(&mut self, id: u64, active: bool, reading: Timestamp) -> (r: Result<
        (),
        Error,
    >)
        requires
            old(self)@.wf(),
        ensures
            final(self)@.wf(),
            agrees(old(self)@, final(self)@, old(self)@.set_active(id, active, reading), r),
            r is Err ==> *final(self) == *old(self),
    {
        match self.find_user(id) {
            None => Err(Error::OwnerNotFound),
            Some(i) => {
                let now = self.clock.observe(reading);
                self.users[i].active = active;
                self.users[i].last_accessed = now;
                proof {
                    lemma_user_position(old(self)@.users, i as int);
                    let post = old(self)@.set_active(id, active, reading)->Ok_0;
                    assert(self@.users =~= post.users);
                    lemma_set_active_wf(old(self)@, id, active, reading);
                }
                Ok(())
            },
        }
    }

    /// `set_active_at`, with a reading of the system clock.
    pub fn set_active(&mut self, id: u64, active: bool) -> (r: Result<(), Error>)
        requires
            old(self)@.wf(),
        ensures
            final(self)@.wf(),
            exists|reading: Timestamp|
                reading.micros >= 0 && agrees(
                    old(self)@,
                    final(self)@,
                    #[trigger] old(self)@.set_active(id, active, reading),
                    r,
                ),
            r is Err ==> *final(self) == *old(self),
    {
        let reading = Timestamp::now();
        self.set_active_at(id, active, reading)
    }

    /// Adds `amount` to the balance of `owner_id`. No instant is stamped:
    /// `last_transaction` records transfers only.
    pub fn deposit(&mut self, owner_id: u64, amount: u64) -> (r: Result<(), Error>)
        requires
            old(self)@.wf(),
        ensures
            final(self)@.wf(),
            agrees(old(self)@, final(self)@, old(self)@.deposit(owner_id, amount), r),
            r is Ok ==> final(self)@.total() == old(self)@.total() + amount,
            r is Err ==> *final(self) == *old(self),
    {
        if amount == 0 {
            return Err(Error::InvalidAmount);
        }
        match self.find_account(owner_id) {
            None => Err(Error::AccountNotFound { owner_id }),
            Some(k) => {
                let total = self.total_balance();
                if amount > u64::MAX - total {
                    return Err(Error::BalanceOverflow);
                }
                proof {
                    lemma_account_position(self@.accounts, k as int);
                    lemma_total_bounds(self@.accounts, k as int);
                }
                self.accounts[k].balance = self.accounts[k].balance + amount;
                proof {
                    let post = old(self)@.deposit(owner_id, amount)->Ok_0;
                    assert(self@.accounts =~= post.accounts);
                    lemma_deposit_wf(old(self)@, owner_id, amount);
                }
                Ok(())
            },
        }
    }
}

/// The place of the user `id` in `users`, by a scan from the front.
pub(crate) fn find_user_in(users: &Vec<UserAccount>, id: u64) -> (place: Option<usize>)
    ensures
        place matches Some(i) ==> i < users.len() && users[i as int].id == id,
        place is Some <==> has_user(records(users@), id),
{
    let mut i: usize = 0;
    while i < users.len()
        invariant
            i <= users.len(),
            forall|j: int| 0 <= j < i ==> (#[trigger] records(users@)[j]).id != id,
        decreases users.len() - i,
    {
        if users[i].id == id {
            assert(records(users@)[i as int].id == id);
            return Some(i);
        }
        i = i + 1;
    }
    None
}

/// The place of the account of `owner_id` among the first `count` of
/// `accounts`, by a scan from the front.
pub(crate) fn find_account_in(accounts: &Vec<CheckingAccount>, count: usize, owner_id: u64) -> (place:
    Option<usize>)
    requires
        count <= accounts.len(),
    ensures
        place matches Some(k) ==> k < count && accounts[k as int].account_owner_id == owner_id,
        place is Some <==> has_account(accounts@.take(count as int), owner_id),
{
    let mut k: usize = 0;
    while k < count
        invariant
            k <= count <= accounts.len(),
            forall|j: int|
                0 <= j < k ==> (#[trigger] accounts@.take(count as int)[j]).account_owner_id
                    != owner_id,
        decreases count - k,
    {
        if accounts[k].account_owner_id == owner_id {
            assert(accounts@.take(count as int)[k as int].account_owner_id == owner_id);
            return Some(k);
        }
        k = k + 1;
    }
    None
}

} // verus!
