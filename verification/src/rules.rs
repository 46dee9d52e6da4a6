//! What each operation does to a ledger, as functions on `LedgerView`, and
//! the proof that each keeps the ledger well formed.

use vstd::prelude::*;
use crate::account::{AccountKind, CheckingAccount, UserRecord};
use crate::clock::Timestamp;
use crate::error::Error;
use crate::model::{
    account_position, has_account, has_user, lemma_account_position, lemma_total_bounds,
    lemma_total_bounds_pair, lemma_total_push, lemma_total_update, stamped, user_position,
    LedgerView,
};

verus! {

impl LedgerView {
    /// A ledger without users or accounts, whose clock has handed out
    /// nothing yet.
    pub open spec fn empty() -> LedgerView {
        LedgerView {
            users: Seq::empty(),
            accounts: Seq::empty(),
            last_id: 0,
            now: Timestamp::earliest(),
        }
    }

    /// The instant that the clock hands out when it is shown `reading`.
    pub open spec fn instant(self, reading: Timestamp) -> Timestamp {
        self.now.later_of(reading)
    }

    /// Adds a user under the next identifier, active, created and last
    /// accessed at the current instant. Refused for an empty name, and once
    /// every identifier has been handed out.
    pub open spec fn create_user(
        self,
        name: Seq<char>,
        date_of_birth: Seq<char>,
        address: Seq<char>,
        social_security: u32,
        reading: Timestamp,
    ) -> Result<LedgerView, Error> {
        if name.len() == 0 {
            Err(Error::InvalidName)
        } else if self.last_id == u64::MAX {
            Err(Error::IdsExhausted)
        } else {
            let now = self.instant(reading);
            let id = (self.last_id + 1) as u64;
            let user = UserRecord {
                id,
                name,
                active: true,
                date_of_birth,
                address,
                social_security,
                created_at: now,
                last_accessed: now,
            };
            Ok(LedgerView { users: self.users.push(user), last_id: id, now, ..self })
        }
    }

    /// Opens an empty checking account for `owner_id`, created at the
    /// current instant. Refused where no such user exists, where the user
    /// already has an account, and where the user is not active, tested in
    /// this order.
    pub open spec fn create_checking(self, owner_id: u64, reading: Timestamp) -> Result<
        LedgerView,
        Error,
    > {
        if !has_user(self.users, owner_id) {
            Err(Error::OwnerNotFound)
        } else if has_account(self.accounts, owner_id) {
            Err(Error::DuplicateAccount)
        } else if !self.user(owner_id).active {
            Err(Error::InactiveAccount { owner_id })
        } else {
            let now = self.instant(reading);
            let account = CheckingAccount {
                account_owner_id: owner_id,
                account_type: AccountKind::Checking,
                balance: 0,
                created_at: now,
                last_transaction: now,
            };
            Ok(LedgerView { accounts: self.accounts.push(account), now, ..self })
        }
    }

    /// Marks the user `id` as accessed at the current instant.
    pub open spec fn touch_user(self, id: u64, reading: Timestamp) -> Result<LedgerView, Error> {
        if !has_user(self.users, id) {
            Err(Error::OwnerNotFound)
        } else {
            let now = self.instant(reading);
            let at = user_position(self.users, id);
            let user = UserRecord { last_accessed: now, ..self.users[at] };
            Ok(LedgerView { users: self.users.update(at, user), now, ..self })
        }
    }

    /// Sets whether the user `id` is active, and marks the user as accessed
    /// at the current instant.
    pub open spec fn set_active(self, id: u64, active: bool, reading: Timestamp) -> Result<
        LedgerView,
        Error,
    > {
        if !has_user(self.users, id) {
            Err(Error::OwnerNotFound)
        } else {
            let now = self.instant(reading);
            let at = user_position(self.users, id);
            let user = UserRecord { active, last_accessed: now, ..self.users[at] };
            Ok(LedgerView { users: self.users.update(at, user), now, ..self })
        }
    }

    /// Adds `amount` to the balance of `owner_id`. Refused for a zero
    /// amount, for an owner without an account, and where the sum of all
    /// balances would no longer fit in 64 bits, tested in this order.
    pub open spec fn deposit(self, owner_id: u64, amount: u64) -> Result<LedgerView, Error> {
        if amount == 0 {
            Err(Error::InvalidAmount)
        } else if !has_account(self.accounts, owner_id) {
            Err(Error::AccountNotFound { owner_id })
        } else if self.total() + amount > u64::MAX {
            Err(Error::BalanceOverflow)
        } else {
            let at = account_position(self.accounts, owner_id);
            let account = CheckingAccount {
                balance: (self.accounts[at].balance + amount) as u64,
                ..self.accounts[at]
            };
            Ok(LedgerView { accounts: self.accounts.update(at, account), ..self })
        }
    }

    /// Moves `amount` from the account of `from` to the account of `to` and
    /// stamps both with the current instant. The tests, in order: a zero
    /// amount; source and destination the same; a missing account, the
    /// source's named first; an owner who is not active, the source's named
    /// first; a source balance below the amount.
    pub open spec fn transfer(self, from: u64, to: u64, amount: u64, reading: Timestamp) -> Result<
        LedgerView,
        Error,
    > {
        if amount == 0 {
            Err(Error::InvalidAmount)
        } else if from == to {
            Err(Error::SelfTransfer)
        } else if !has_account(self.accounts, from) {
            Err(Error::AccountNotFound { owner_id: from })
        } else if !has_account(self.accounts, to) {
            Err(Error::AccountNotFound { owner_id: to })
        } else if !self.user(from).active {
            Err(Error::InactiveAccount { owner_id: from })
        } else if !self.user(to).active {
            Err(Error::InactiveAccount { owner_id: to })
        } else if self.account(from).balance < amount {
            Err(Error::InsufficientFunds)
        } else {
            let now = self.instant(reading);
            let source = account_position(self.accounts, from);
            let target = account_position(self.accounts, to);
            let debited = CheckingAccount {
                balance: (self.accounts[source].balance - amount) as u64,
                last_transaction: now,
                ..self.accounts[source]
            };
            let credited = CheckingAccount {
                balance: (self.accounts[target].balance + amount) as u64,
                last_transaction: now,
                ..self.accounts[target]
            };
            Ok(
                LedgerView {
                    accounts: self.accounts.update(source, debited).update(target, credited),
                    now,
                    ..self
                },
            )
        }
    }

    /// `from` and `to` name two different accounts whose owners are active:
    /// the pairs between which money can move.
    pub open spec fn can_trade(self, from: u64, to: u64) -> bool {
        &&& from != to
        &&& has_account(self.accounts, from)
        &&& has_account(self.accounts, to)
        &&& self.user(from).active
        &&& self.user(to).active
    }

    /// `transfer`, refused with `Timeout` where `reading` lies after
    /// `deadline`: the caller waited too long for its turn.
    pub open spec fn transfer_by(
        self,
        from: u64,
        to: u64,
        amount: u64,
        deadline: Timestamp,
        reading: Timestamp,
    ) -> Result<LedgerView, Error> {
        if deadline.micros < reading.micros {
            Err(Error::Timeout)
        } else {
            self.transfer(from, to, amount, reading)
        }
    }
}

/// A user found in `before` is found in `after` where `after` keeps every
/// identifier of `before` in its place.
pub proof fn lemma_has_user_kept(before: Seq<UserRecord>, after: Seq<UserRecord>, id: u64)
    requires
        before.len() <= after.len(),
        forall|i: int| 0 <= i < before.len() ==> (#[trigger] after[i]).id == before[i].id,
        has_user(before, id),
    ensures
        has_user(after, id),
{
    let i = user_position(before, id);
    assert(after[i].id == id);
}

/// An instant that some record carries is still carried where the accounts
/// change but keep their stamps.
pub proof fn lemma_stamped_kept(
    users: Seq<UserRecord>,
    before: Seq<CheckingAccount>,
    after: Seq<CheckingAccount>,
    t: Timestamp,
)
    requires
        before.len() == after.len(),
        forall|k: int|
            0 <= k < before.len() ==> (#[trigger] after[k]).last_transaction
                == before[k].last_transaction,
        stamped(users, before, t),
    ensures
        stamped(users, after, t),
{
    if exists|k: int| 0 <= k < before.len() && (#[trigger] before[k]).last_transaction == t {
        let k = choose|k: int| 0 <= k < before.len() && (#[trigger] before[k]).last_transaction == t;
        assert(after[k].last_transaction == t);
    }
}

/// The empty ledger is well formed.
pub proof fn lemma_empty_wf()
    ensures
        LedgerView::empty().wf(),
{
}

/// Creating a user keeps the ledger well formed.
pub proof fn lemma_create_user_wf(
    pre: LedgerView,
    name: Seq<char>,
    date_of_birth: Seq<char>,
    address: Seq<char>,
    social_security: u32,
    reading: Timestamp,
)
    requires
        pre.wf(),
    ensures
        pre.create_user(name, date_of_birth, address, social_security, reading) matches Ok(post)
            ==> post.wf(),
{
    if let Ok(post) = pre.create_user(name, date_of_birth, address, social_security, reading) {
        assert(post.users[post.users.len() - 1].last_accessed == post.now);
        assert forall|i: int, j: int| 0 <= i < j < post.users.len() implies (
        #[trigger] post.users[i]).id < (#[trigger] post.users[j]).id by {
            if j == pre.users.len() {
                assert(pre.users[i].id <= pre.users[pre.users.len() - 1].id);
            } else {
                assert(pre.users[i].id < pre.users[j].id);
            }
        }
        assert forall|k: int| 0 <= k < post.accounts.len() implies has_user(
            post.users,
            (#[trigger] post.accounts[k]).account_owner_id,
        ) by {
            lemma_has_user_kept(pre.users, post.users, pre.accounts[k].account_owner_id);
        }
    }
}

/// A new user's identifier is one more than the identifier handed out
/// last, and larger than that of every user before: no identifier is ever
/// handed out twice.
pub proof fn law_identifiers_are_fresh(
    pre: LedgerView,
    name: Seq<char>,
    date_of_birth: Seq<char>,
    address: Seq<char>,
    social_security: u32,
    reading: Timestamp,
)
    requires
        pre.wf(),
        pre.create_user(name, date_of_birth, address, social_security, reading) is Ok,
    ensures
        ({
            let post = pre.create_user(name, date_of_birth, address, social_security, reading)->Ok_0;
            &&& post.users.last().id == pre.last_id + 1
            &&& post.last_id == pre.last_id + 1
            &&& !has_user(pre.users, post.users.last().id)
            &&& forall|i: int|
                0 <= i < pre.users.len() ==> (#[trigger] pre.users[i]).id < post.users.last().id
        }),
{
    let post = pre.create_user(name, date_of_birth, address, social_security, reading)->Ok_0;
    assert forall|i: int| 0 <= i < pre.users.len() implies (#[trigger] pre.users[i]).id
        < post.users.last().id by {
        assert(pre.users[i].id <= pre.users[pre.users.len() - 1].id);
    }
}

/// Opening an account keeps the ledger well formed.
pub proof fn lemma_create_checking_wf(pre: LedgerView, owner_id: u64, reading: Timestamp)
    requires
        pre.wf(),
    ensures
        pre.create_checking(owner_id, reading) matches Ok(post) ==> post.wf(),
{
    if let Ok(post) = pre.create_checking(owner_id, reading) {
        lemma_total_push(pre.accounts, post.accounts.last());
        assert forall|k: int, l: int| 0 <= k < l < post.accounts.len() implies (
        #[trigger] post.accounts[k]).account_owner_id != (
        #[trigger] post.accounts[l]).account_owner_id by {
            if l == pre.accounts.len() {
                assert(pre.accounts[k].account_owner_id != owner_id);
            } else {
                assert(pre.accounts[k].account_owner_id != pre.accounts[l].account_owner_id);
            }
        }
    }
}

/// Replacing a user by one with the same identifier and creation instant,
/// accessed at the new current instant, keeps the ledger well formed.
proof fn lemma_user_replaced_wf(pre: LedgerView, at: int, user: UserRecord, reading: Timestamp)
    requires
        pre.wf(),
        0 <= at < pre.users.len(),
        user.id == pre.users[at].id,
        user.name == pre.users[at].name,
        user.created_at == pre.users[at].created_at,
        user.last_accessed == pre.instant(reading),
    ensures
        (LedgerView { users: pre.users.update(at, user), now: pre.instant(reading), ..pre }).wf(),
{
    let post = LedgerView { users: pre.users.update(at, user), now: pre.instant(reading), ..pre };
    assert(post.users[at].last_accessed == post.now);
    assert forall|i: int| 0 <= i < post.users.len() implies {
        &&& (#[trigger] post.users[i]).valid()
        &&& post.users[i].id <= post.last_id
        &&& post.users[i].last_accessed.not_after(post.now)
    } by {
        assert(pre.users[i].valid());
    }
    assert forall|i: int, j: int| 0 <= i < j < post.users.len() implies (
    #[trigger] post.users[i]).id < (#[trigger] post.users[j]).id by {
        assert(pre.users[i].id < pre.users[j].id);
    }
    assert forall|k: int| 0 <= k < post.accounts.len() implies {
        &&& (#[trigger] post.accounts[k]).valid()
        &&& post.accounts[k].last_transaction.not_after(post.now)
        &&& has_user(post.users, post.accounts[k].account_owner_id)
    } by {
        assert(pre.accounts[k].valid());
        lemma_has_user_kept(pre.users, post.users, pre.accounts[k].account_owner_id);
    }
}

/// Marking a user as accessed keeps the ledger well formed.
pub proof fn lemma_touch_user_wf(pre: LedgerView, id: u64, reading: Timestamp)
    requires
        pre.wf(),
    ensures
        pre.touch_user(id, reading) matches Ok(post) ==> post.wf(),
{
    if has_user(pre.users, id) {
        let at = user_position(pre.users, id);
        let user = UserRecord { last_accessed: pre.instant(reading), ..pre.users[at] };
        lemma_user_replaced_wf(pre, at, user, reading);
    }
}

/// Setting whether a user is active keeps the ledger well formed.
pub proof fn lemma_set_active_wf(pre: LedgerView, id: u64, active: bool, reading: Timestamp)
    requires
        pre.wf(),
    ensures
        pre.set_active(id, active, reading) matches Ok(post) ==> post.wf(),
{
    if has_user(pre.users, id) {
        let at = user_position(pre.users, id);
        let user = UserRecord { active, last_accessed: pre.instant(reading), ..pre.users[at] };
        lemma_user_replaced_wf(pre, at, user, reading);
    }
}

/// A deposit keeps the ledger well formed and raises the total by the
/// amount.
pub proof fn lemma_deposit_wf(pre: LedgerView, owner_id: u64, amount: u64)
    requires
        pre.wf(),
    ensures
        pre.deposit(owner_id, amount) matches Ok(post) ==> post.wf() && post.total() == pre.total()
            + amount,
{
    if let Ok(post) = pre.deposit(owner_id, amount) {
        let at = account_position(pre.accounts, owner_id);
        lemma_total_bounds(pre.accounts, at);
        lemma_total_update(pre.accounts, at, post.accounts[at]);
        lemma_stamped_kept(pre.users, pre.accounts, post.accounts, pre.now);
        assert forall|k: int| 0 <= k < post.accounts.len() implies {
            &&& (#[trigger] post.accounts[k]).valid()
            &&& post.accounts[k].last_transaction.not_after(post.now)
            &&& has_user(post.users, post.accounts[k].account_owner_id)
        } by {
            assert(pre.accounts[k].valid());
        }
        assert forall|k: int, l: int| 0 <= k < l < post.accounts.len() implies (
        #[trigger] post.accounts[k]).account_owner_id != (
        #[trigger] post.accounts[l]).account_owner_id by {
            assert(pre.accounts[k].account_owner_id != pre.accounts[l].account_owner_id);
        }
    }
}


/// A transfer keeps the ledger well formed.
pub proof fn lemma_transfer_wf(pre: LedgerView, from: u64, to: u64, amount: u64, reading: Timestamp)
    requires
        pre.wf(),
    ensures
        pre.transfer(from, to, amount, reading) matches Ok(post) ==> post.wf(),
{
    if let Ok(post) = pre.transfer(from, to, amount, reading) {
        let source = account_position(pre.accounts, from);
        let target = account_position(pre.accounts, to);
        let debited = pre.accounts.update(source, post.accounts[source]);
        lemma_total_bounds_pair(pre.accounts, source, target);
        lemma_total_update(pre.accounts, source, post.accounts[source]);
        lemma_total_update(debited, target, post.accounts[target]);
        assert(post.accounts =~= debited.update(target, post.accounts[target]));
        assert forall|k: int| 0 <= k < post.accounts.len() implies {
            &&& (#[trigger] post.accounts[k]).valid()
            &&& post.accounts[k].last_transaction.not_after(post.now)
            &&& has_user(post.users, post.accounts[k].account_owner_id)
        } by {
            assert(pre.accounts[k].valid());
        }
        assert forall|k: int, l: int| 0 <= k < l < post.accounts.len() implies (
        #[trigger] post.accounts[k]).account_owner_id != (
        #[trigger] post.accounts[l]).account_owner_id by {
            assert(pre.accounts[k].account_owner_id != pre.accounts[l].account_owner_id);
        }
    }
}

/// Whenever `amount` is positive, `from` and `to` can trade and the source
/// holds at least `amount`, the transfer succeeds: the source balance falls
/// by exactly `amount`, the destination balance rises by exactly `amount`,
/// both accounts are stamped with the current instant, and nothing else
/// changes. The sum of the two balances, and the sum of all balances, stay
/// what they were.
pub proof fn law_transfer_moves_amount(
    pre: LedgerView,
    from: u64,
    to: u64,
    amount: u64,
    reading: Timestamp,
)
    requires
        pre.wf(),
        amount > 0,
        pre.can_trade(from, to),
        amount <= pre.account(from).balance,
    ensures
        pre.transfer(from, to, amount, reading) is Ok,
        ({
            let post = pre.transfer(from, to, amount, reading)->Ok_0;
            &&& post.wf()
            &&& post.users == pre.users
            &&& post.last_id == pre.last_id
            &&& post.now == pre.instant(reading)
            &&& post.accounts.len() == pre.accounts.len()
            &&& post.can_trade(from, to)
            &&& post.account(from) == CheckingAccount {
                balance: (pre.account(from).balance - amount) as u64,
                last_transaction: post.now,
                ..pre.account(from)
            }
            &&& post.account(to) == CheckingAccount {
                balance: (pre.account(to).balance + amount) as u64,
                last_transaction: post.now,
                ..pre.account(to)
            }
            &&& post.account(from).balance == pre.account(from).balance - amount
            &&& post.account(to).balance == pre.account(to).balance + amount
            &&& post.account(from).balance + post.account(to).balance == pre.account(from).balance
                + pre.account(to).balance
            &&& post.total() == pre.total()
            &&& forall|k: int|
                0 <= k < pre.accounts.len() && (#[trigger] pre.accounts[k]).account_owner_id != from
                    && pre.accounts[k].account_owner_id != to ==> post.accounts[k]
                    == pre.accounts[k]
        }),
{
    let post = pre.transfer(from, to, amount, reading)->Ok_0;
    let source = account_position(pre.accounts, from);
    let target = account_position(pre.accounts, to);
    let debited = pre.accounts.update(source, post.accounts[source]);
    lemma_transfer_wf(pre, from, to, amount, reading);
    lemma_total_bounds_pair(pre.accounts, source, target);
    lemma_total_update(pre.accounts, source, post.accounts[source]);
    lemma_total_update(debited, target, post.accounts[target]);
    assert(post.accounts =~= debited.update(target, post.accounts[target]));
    lemma_account_position(post.accounts, source);
    lemma_account_position(post.accounts, target);
}

/// Nothing is remembered of a transfer: where the source holds twice the
/// amount, the same transfer made twice moves the amount twice.
pub proof fn law_transfer_twice_moves_twice(
    pre: LedgerView,
    from: u64,
    to: u64,
    amount: u64,
    first: Timestamp,
    second: Timestamp,
)
    requires
        pre.wf(),
        amount > 0,
        pre.can_trade(from, to),
        2 * amount <= pre.account(from).balance,
    ensures
        ({
            let mid = pre.transfer(from, to, amount, first)->Ok_0;
            let post = mid.transfer(from, to, amount, second)->Ok_0;
            &&& pre.transfer(from, to, amount, first) is Ok
            &&& mid.transfer(from, to, amount, second) is Ok
            &&& post.account(from).balance == pre.account(from).balance - 2 * amount
            &&& post.account(to).balance == pre.account(to).balance + 2 * amount
        }),
{
    law_transfer_moves_amount(pre, from, to, amount, first);
    let mid = pre.transfer(from, to, amount, first)->Ok_0;
    law_transfer_moves_amount(mid, from, to, amount, second);
}

/// Whenever `from` and `to` can trade and `amount` exceeds the source
/// balance, the transfer is refused with `InsufficientFunds`.
pub proof fn law_insufficient_funds(
    pre: LedgerView,
    from: u64,
    to: u64,
    amount: u64,
    reading: Timestamp,
)
    requires
        pre.can_trade(from, to),
        amount > pre.account(from).balance,
    ensures
        pre.transfer(from, to, amount, reading) == Err::<LedgerView, Error>(
            Error::InsufficientFunds,
        ),
{
}

/// Whenever `amount` is positive, `from` and `to` differ and one of them has
/// no account, the transfer is refused with `AccountNotFound`, which names
/// the source where the source is missing and the destination otherwise.
pub proof fn law_missing_account(
    pre: LedgerView,
    from: u64,
    to: u64,
    amount: u64,
    reading: Timestamp,
)
    requires
        amount > 0,
        from != to,
        !has_account(pre.accounts, from) || !has_account(pre.accounts, to),
    ensures
        pre.transfer(from, to, amount, reading) == Err::<LedgerView, Error>(
            Error::AccountNotFound {
                owner_id: if has_account(pre.accounts, from) {
                    to
                } else {
                    from
                },
            },
        ),
{
}

/// Where a transfer of `amount` from `a` to `b` succeeds, the transfer of
/// the same amount back from `b` to `a` succeeds after it, and the two
/// together leave every balance as it was: only the stamps of the two
/// accounts and the clock have moved.
pub proof fn law_opposite_transfers_cancel(
    pre: LedgerView,
    a: u64,
    b: u64,
    amount: u64,
    first: Timestamp,
    second: Timestamp,
)
    requires
        pre.wf(),
        pre.transfer(a, b, amount, first) is Ok,
    ensures
        ({
            let mid = pre.transfer(a, b, amount, first)->Ok_0;
            &&& mid.transfer(b, a, amount, second) is Ok
            &&& ({
                let post = mid.transfer(b, a, amount, second)->Ok_0;
                &&& post.wf()
                &&& post.users == pre.users
                &&& post.accounts.len() == pre.accounts.len()
                &&& post.account(a).balance == pre.account(a).balance
                &&& post.account(b).balance == pre.account(b).balance
                &&& forall|k: int|
                    0 <= k < pre.accounts.len() ==> (#[trigger] post.accounts[k]).balance
                        == pre.accounts[k].balance
                &&& forall|k: int|
                    0 <= k < pre.accounts.len() && (#[trigger] pre.accounts[k]).account_owner_id
                        != a && pre.accounts[k].account_owner_id != b ==> post.accounts[k]
                        == pre.accounts[k]
            })
        }),
{
    let mid = pre.transfer(a, b, amount, first)->Ok_0;
    law_transfer_moves_amount(pre, a, b, amount, first);
    law_transfer_moves_amount(mid, b, a, amount, second);
    let post = mid.transfer(b, a, amount, second)->Ok_0;
    let ka = account_position(pre.accounts, a);
    let kb = account_position(pre.accounts, b);
    assert forall|k: int| 0 <= k < pre.accounts.len() implies (#[trigger] post.accounts[k]).balance
        == pre.accounts[k].balance by {
        if k != ka && k != kb {
            lemma_account_position(pre.accounts, k);
            assert(pre.accounts[k].account_owner_id != a);
            assert(pre.accounts[k].account_owner_id != b);
            assert(mid.accounts[k] == pre.accounts[k]);
        }
    }
}

/// Two transfers of the same amount in opposite directions, each of which
/// could go first, leave every balance as it was in whichever order they
/// take their turns. An operation has the ledger to itself, so two that are
/// asked for at once take turns in one order or the other.
pub proof fn law_simultaneous_opposite_transfers(
    pre: LedgerView,
    a: u64,
    b: u64,
    amount: u64,
    first: Timestamp,
    second: Timestamp,
)
    requires
        pre.wf(),
        amount > 0,
        pre.can_trade(a, b),
        amount <= pre.account(a).balance,
        amount <= pre.account(b).balance,
    ensures
        ({
            let there = pre.transfer(a, b, amount, first)->Ok_0;
            let there_and_back = there.transfer(b, a, amount, second)->Ok_0;
            let back = pre.transfer(b, a, amount, first)->Ok_0;
            let back_and_there = back.transfer(a, b, amount, second)->Ok_0;
            &&& pre.transfer(a, b, amount, first) is Ok
            &&& there.transfer(b, a, amount, second) is Ok
            &&& pre.transfer(b, a, amount, first) is Ok
            &&& back.transfer(a, b, amount, second) is Ok
            &&& there_and_back.accounts.len() == pre.accounts.len()
            &&& back_and_there.accounts.len() == pre.accounts.len()
            &&& forall|k: int|
                0 <= k < pre.accounts.len() ==> (#[trigger] there_and_back.accounts[k]).balance
                    == pre.accounts[k].balance
            &&& forall|k: int|
                0 <= k < pre.accounts.len() ==> (#[trigger] back_and_there.accounts[k]).balance
                    == pre.accounts[k].balance
        }),
{
    law_transfer_moves_amount(pre, a, b, amount, first);
    law_transfer_moves_amount(pre, b, a, amount, first);
    law_opposite_transfers_cancel(pre, a, b, amount, first, second);
    law_opposite_transfers_cancel(pre, b, a, amount, first, second);
}

} // verus!
