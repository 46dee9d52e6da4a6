//! The ledger as a mathematical value, and what it means for that value to
//! be well formed.

use vstd::prelude::*;
use crate::account::{CheckingAccount, UserAccount, UserRecord};
use crate::clock::Timestamp;

verus! {

/// The records of a sequence of users.
pub open spec fn records(users: Seq<UserAccount>) -> Seq<UserRecord> {
    Seq::new(users.len(), |i: int| users[i]@)
}

/// Some user carries the identifier `id`.
pub open spec fn has_user(users: Seq<UserRecord>, id: u64) -> bool {
    exists|i: int| 0 <= i < users.len() && (#[trigger] users[i]).id == id
}

/// The place of a user that carries `id`; meaningful where `has_user` holds.
pub open spec fn user_position(users: Seq<UserRecord>, id: u64) -> int {
    choose|i: int| 0 <= i < users.len() && (#[trigger] users[i]).id == id
}

/// Some account belongs to `owner_id`.
pub open spec fn has_account(accounts: Seq<CheckingAccount>, owner_id: u64) -> bool {
    exists|k: int| 0 <= k < accounts.len() && (#[trigger] accounts[k]).account_owner_id == owner_id
}

/// The place of an account that belongs to `owner_id`; meaningful where
/// `has_account` holds.
pub open spec fn account_position(accounts: Seq<CheckingAccount>, owner_id: u64) -> int {
    choose|k: int| 0 <= k < accounts.len() && (#[trigger] accounts[k]).account_owner_id == owner_id
}

/// The sum of the balances of a sequence of accounts.
pub open spec fn total_balance(accounts: Seq<CheckingAccount>) -> int
    decreases accounts.len(),
{
    if accounts.len() == 0 {
        0
    } else {
        total_balance(accounts.drop_last()) + accounts.last().balance
    }
}

/// User identifiers grow strictly along the sequence, so no two users share
/// one.
pub open spec fn ids_increase(users: Seq<UserRecord>) -> bool {
    forall|i: int, j: int|
        0 <= i < j < users.len() ==> (#[trigger] users[i]).id < (#[trigger] users[j]).id
}

/// No two accounts belong to the same owner.
pub open spec fn owners_differ(accounts: Seq<CheckingAccount>) -> bool {
    forall|k: int, l: int|
        0 <= k < l < accounts.len() ==> (#[trigger] accounts[k]).account_owner_id != (
        #[trigger] accounts[l]).account_owner_id
}

/// The identifier of the newest user; 0 where there is none.
pub open spec fn newest_id(users: Seq<UserRecord>) -> u64 {
    if users.len() == 0 {
        0
    } else {
        users.last().id
    }
}

/// Some user was last accessed, or some account last took part in a
/// transfer, at the instant `t`.
pub open spec fn stamped(users: Seq<UserRecord>, accounts: Seq<CheckingAccount>, t: Timestamp) -> bool {
    ||| exists|i: int| 0 <= i < users.len() && (#[trigger] users[i]).last_accessed == t
    ||| exists|k: int| 0 <= k < accounts.len() && (#[trigger] accounts[k]).last_transaction == t
}

/// The whole state of a ledger.
pub struct LedgerView {
    /// The users, in the order of their creation.
    pub users: Seq<UserRecord>,
    /// The checking accounts, in the order of their creation.
    pub accounts: Seq<CheckingAccount>,
    /// The largest identifier handed out so far; 0 when none has been.
    pub last_id: u64,
    /// The latest instant that the ledger's clock has handed out.
    pub now: Timestamp,
}

impl LedgerView {
    /// The invariant of the ledger. Every operation keeps it.
    ///
    /// Every user is valid and no two share an identifier; the newest user
    /// carries the identifier handed out last; every account is valid and
    /// belongs to a user, no two to the same; no record is stamped later
    /// than the clock, and the clock stands where the latest stamp is; the
    /// sum of all balances fits in 64 bits.
    pub open spec fn wf(self) -> bool {
        &&& forall|i: int|
            0 <= i < self.users.len() ==> {
                &&& (#[trigger] self.users[i]).valid()
                &&& self.users[i].last_accessed.not_after(self.now)
            }
        &&& ids_increase(self.users)
        &&& self.last_id == newest_id(self.users)
        &&& if self.users.len() == 0 {
            self.now == Timestamp::earliest()
        } else {
            stamped(self.users, self.accounts, self.now)
        }
        &&& forall|k: int|
            0 <= k < self.accounts.len() ==> {
                &&& (#[trigger] self.accounts[k]).valid()
                &&& self.accounts[k].last_transaction.not_after(self.now)
                &&& has_user(self.users, self.accounts[k].account_owner_id)
            }
        &&& owners_differ(self.accounts)
        &&& total_balance(self.accounts) <= u64::MAX
    }

    /// The user that carries `id`; meaningful where `has_user` holds.
    pub open spec fn user(self, id: u64) -> UserRecord {
        self.users[user_position(self.users, id)]
    }

    /// The account of `owner_id`; meaningful where `has_account` holds.
    pub open spec fn account(self, owner_id: u64) -> CheckingAccount {
        self.accounts[account_position(self.accounts, owner_id)]
    }

    /// The sum of all balances.
    pub open spec fn total(self) -> int {
        total_balance(self.accounts)
    }
}

/// Where identifiers grow strictly, the user at place `i` is the one that
/// `user_position` finds for its identifier.
pub proof fn lemma_user_position(users: Seq<UserRecord>, i: int)
    requires
        ids_increase(users),
        0 <= i < users.len(),
    ensures
        has_user(users, users[i].id),
        user_position(users, users[i].id) == i,
{
    let id = users[i].id;
    let p = user_position(users, id);
    assert(0 <= p < users.len() && users[p].id == id);
    if p < i {
        assert(users[p].id < users[i].id);
    } else if i < p {
        assert(users[i].id < users[p].id);
    }
}

/// Where owners differ, the account at place `k` is the one that
/// `account_position` finds for its owner.
pub proof fn lemma_account_position(accounts: Seq<CheckingAccount>, k: int)
    requires
        owners_differ(accounts),
        0 <= k < accounts.len(),
    ensures
        has_account(accounts, accounts[k].account_owner_id),
        account_position(accounts, accounts[k].account_owner_id) == k,
{
    let owner = accounts[k].account_owner_id;
    let p = account_position(accounts, owner);
    assert(0 <= p < accounts.len() && accounts[p].account_owner_id == owner);
    if p < k {
        assert(accounts[p].account_owner_id != accounts[k].account_owner_id);
    } else if k < p {
        assert(accounts[k].account_owner_id != accounts[p].account_owner_id);
    }
}

/// Appending an account adds its balance to the total.
pub proof fn lemma_total_push(accounts: Seq<CheckingAccount>, a: CheckingAccount)
    ensures
        total_balance(accounts.push(a)) == total_balance(accounts) + a.balance,
{
    assert(accounts.push(a).drop_last() =~= accounts);
}

/// Replacing the account at place `k` changes the total by the difference of
/// the two balances.
pub proof fn lemma_total_update(accounts: Seq<CheckingAccount>, k: int, a: CheckingAccount)
    requires
        0 <= k < accounts.len(),
    ensures
        total_balance(accounts.update(k, a)) == total_balance(accounts) - accounts[k].balance
            + a.balance,
    decreases accounts.len(),
{
    let updated = accounts.update(k, a);
    if k == accounts.len() - 1 {
        assert(updated.drop_last() =~= accounts.drop_last());
    } else {
        lemma_total_update(accounts.drop_last(), k, a);
        assert(updated.drop_last() =~= accounts.drop_last().update(k, a));
    }
}

/// No total is negative, and no balance exceeds the total.
pub proof fn lemma_total_bounds(accounts: Seq<CheckingAccount>, k: int)
    requires
        0 <= k < accounts.len(),
    ensures
        0 <= accounts[k].balance <= total_balance(accounts),
    decreases accounts.len(),
{
    lemma_total_nonnegative(accounts.drop_last());
    if k < accounts.len() - 1 {
        lemma_total_bounds(accounts.drop_last(), k);
    }
}

/// No total is negative.
pub proof fn lemma_total_nonnegative(accounts: Seq<CheckingAccount>)
    ensures
        0 <= total_balance(accounts),
    decreases accounts.len(),
{
    if accounts.len() > 0 {
        lemma_total_nonnegative(accounts.drop_last());
    }
}

/// Two different accounts together hold no more than the total.
pub proof fn lemma_total_bounds_pair(accounts: Seq<CheckingAccount>, k: int, l: int)
    requires
        0 <= k < accounts.len(),
        0 <= l < accounts.len(),
        k != l,
    ensures
        accounts[k].balance + accounts[l].balance <= total_balance(accounts),
{
    let emptied = CheckingAccount { balance: 0, ..accounts[k] };
    lemma_total_update(accounts, k, emptied);
    lemma_total_bounds(accounts.update(k, emptied), l);
}

/// No prefix of the accounts holds more than all of them.
pub proof fn lemma_total_prefix(accounts: Seq<CheckingAccount>, n: int)
    requires
        0 <= n <= accounts.len(),
    ensures
        total_balance(accounts.take(n)) <= total_balance(accounts),
    decreases accounts.len() - n,
{
    if n < accounts.len() {
        lemma_total_prefix(accounts, n + 1);
        assert(accounts.take(n + 1).drop_last() =~= accounts.take(n));
    } else {
        assert(accounts.take(n) =~= accounts);
    }
}

} // verus!
