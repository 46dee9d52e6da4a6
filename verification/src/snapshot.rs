//! Snapshots: the records of a ledger as two plain sequences, and the way
//! back from a snapshot to a ledger.

use vstd::prelude::*;
use crate::account::{CheckingAccount, UserAccount, UserRecord};
use crate::clock::{Clock, Timestamp};
use crate::error::Error;
use crate::ids::IdAllocator;
use crate::ledger::{find_account_in, find_user_in, Ledger};
use crate::model::{
    has_account, has_user, ids_increase, lemma_total_prefix, newest_id, owners_differ, records,
    stamped, total_balance, LedgerView,
};

verus! {

/// The users and the checking accounts of a ledger, each in the order of
/// creation.
#[derive(Debug, PartialEq, Eq)]
pub struct Snapshot {
    pub users: Vec<UserAccount>,
    pub accounts: Vec<CheckingAccount>,
}

/// What a `Snapshot` holds.
pub struct SnapshotView {
    pub users: Seq<UserRecord>,
    pub accounts: Seq<CheckingAccount>,
}

impl View for Snapshot {
    type V = SnapshotView;

    open spec fn view(&self) -> SnapshotView {
        SnapshotView { users: records(self.users@), accounts: self.accounts@ }
    }
}

/// The latest instant at which one of `users` was accessed; the earliest
/// instant where there is no user.
pub open spec fn latest_access(users: Seq<UserRecord>) -> Timestamp
    decreases users.len(),
{
    if users.len() == 0 {
        Timestamp::earliest()
    } else {
        latest_access(users.drop_last()).later_of(users.last().last_accessed)
    }
}

/// The latest instant at which one of `accounts` took part in a transfer;
/// the earliest instant where there is no account.
pub open spec fn latest_transaction(accounts: Seq<CheckingAccount>) -> Timestamp
    decreases accounts.len(),
{
    if accounts.len() == 0 {
        Timestamp::earliest()
    } else {
        latest_transaction(accounts.drop_last()).later_of(accounts.last().last_transaction)
    }
}

impl SnapshotView {
    /// The snapshot can be the content of a ledger: every user and account
    /// is valid, user identifiers grow strictly, every account belongs to a
    /// user and no two to the same, and the sum of all balances fits in 64
    /// bits.
    pub open spec fn well_formed(self) -> bool {
        &&& forall|i: int| 0 <= i < self.users.len() ==> (#[trigger] self.users[i]).valid()
        &&& ids_increase(self.users)
        &&& forall|k: int|
            0 <= k < self.accounts.len() ==> {
                &&& (#[trigger] self.accounts[k]).valid()
                &&& has_user(self.users, self.accounts[k].account_owner_id)
            }
        &&& owners_differ(self.accounts)
        &&& total_balance(self.accounts) <= u64::MAX
    }

    /// The latest instant that any record of the snapshot carries.
    pub open spec fn latest_stamp(self) -> Timestamp {
        latest_access(self.users).later_of(latest_transaction(self.accounts))
    }

    /// The ledger that holds the snapshot's records: its allocator
    /// continues after the newest user, and its clock stands at the latest
    /// stamp.
    pub open spec fn restored(self) -> LedgerView {
        LedgerView {
            users: self.users,
            accounts: self.accounts,
            last_id: newest_id(self.users),
            now: self.latest_stamp(),
        }
    }
}

impl LedgerView {
    /// The records of the ledger.
    pub open spec fn snapshot(self) -> SnapshotView {
        SnapshotView { users: self.users, accounts: self.accounts }
    }
}

/// No user was accessed after `latest_access`, and some user was accessed
/// then.
pub proof fn lemma_latest_access(users: Seq<UserRecord>)
    ensures
        forall|i: int|
            0 <= i < users.len() ==> (#[trigger] users[i]).last_accessed.not_after(
                latest_access(users),
            ),
        users.len() > 0 ==> exists|i: int|
            0 <= i < users.len() && (#[trigger] users[i]).last_accessed == latest_access(users),
    decreases users.len(),
{
    if users.len() > 0 {
        let front = users.drop_last();
        lemma_latest_access(front);
        assert forall|i: int| 0 <= i < users.len() implies (
        #[trigger] users[i]).last_accessed.not_after(latest_access(users)) by {
            if i < front.len() {
                assert(front[i].last_accessed.not_after(latest_access(front)));
            }
        }
        if latest_access(users) == users.last().last_accessed {
            assert(users[users.len() - 1].last_accessed == latest_access(users));
        } else {
            let i = choose|i: int|
                0 <= i < front.len() && (#[trigger] front[i]).last_accessed == latest_access(front);
            assert(users[i].last_accessed == latest_access(users));
        }
    }
}

/// No account took part in a transfer after `latest_transaction`, and some
/// account did then.
pub proof fn lemma_latest_transaction(accounts: Seq<CheckingAccount>)
    ensures
        forall|k: int|
            0 <= k < accounts.len() ==> (#[trigger] accounts[k]).last_transaction.not_after(
                latest_transaction(accounts),
            ),
        accounts.len() > 0 ==> exists|k: int|
            0 <= k < accounts.len() && (#[trigger] accounts[k]).last_transaction
                == latest_transaction(accounts),
    decreases accounts.len(),
{
    if accounts.len() > 0 {
        let front = accounts.drop_last();
        lemma_latest_transaction(front);
        assert forall|k: int| 0 <= k < accounts.len() implies (
        #[trigger] accounts[k]).last_transaction.not_after(latest_transaction(accounts)) by {
            if k < front.len() {
                assert(front[k].last_transaction.not_after(latest_transaction(front)));
            }
        }
        if latest_transaction(accounts) == accounts.last().last_transaction {
            assert(accounts[accounts.len() - 1].last_transaction == latest_transaction(accounts));
        } else {
            let k = choose|k: int|
                0 <= k < front.len() && (#[trigger] front[k]).last_transaction
                    == latest_transaction(front);
            assert(accounts[k].last_transaction == latest_transaction(accounts));
        }
    }
}

/// The ledger restored from a well-formed snapshot is well formed and holds
/// the snapshot's records.
pub proof fn lemma_restored_wf(snapshot: SnapshotView)
    requires
        snapshot.well_formed(),
    ensures
        snapshot.restored().wf(),
        snapshot.restored().snapshot() == snapshot,
{
    let ledger = snapshot.restored();
    lemma_latest_access(snapshot.users);
    lemma_latest_transaction(snapshot.accounts);
    if snapshot.users.len() == 0 {
        if snapshot.accounts.len() > 0 {
            assert(has_user(snapshot.users, snapshot.accounts[0].account_owner_id));
        }
    } else {
        let t = latest_access(snapshot.users);
        if ledger.now == t {
            let i = choose|i: int|
                0 <= i < snapshot.users.len() && (#[trigger] snapshot.users[i]).last_accessed == t;
            assert(ledger.users[i].last_accessed == ledger.now);
        } else {
            let k = choose|k: int|
                0 <= k < snapshot.accounts.len() && (
                #[trigger] snapshot.accounts[k]).last_transaction == ledger.now;
            assert(ledger.accounts[k].last_transaction == ledger.now);
        }
        assert(stamped(ledger.users, ledger.accounts, ledger.now));
    }
    assert forall|i: int| 0 <= i < ledger.users.len() implies {
        &&& (#[trigger] ledger.users[i]).valid()
        &&& ledger.users[i].last_accessed.not_after(ledger.now)
    } by {
        assert(snapshot.users[i].valid());
        assert(snapshot.users[i].last_accessed.not_after(latest_access(snapshot.users)));
    }
    assert forall|k: int| 0 <= k < ledger.accounts.len() implies {
        &&& (#[trigger] ledger.accounts[k]).valid()
        &&& ledger.accounts[k].last_transaction.not_after(ledger.now)
        &&& has_user(ledger.users, ledger.accounts[k].account_owner_id)
    } by {
        assert(snapshot.accounts[k].valid());
        assert(snapshot.accounts[k].last_transaction.not_after(
            latest_transaction(snapshot.accounts),
        ));
    }
}

/// The snapshot of a well-formed ledger is well formed, and restoring it
/// gives the ledger back: the same users and accounts, field for field, the
/// same allocator and the same clock.
pub proof fn law_snapshot_roundtrip(ledger: LedgerView)
    requires
        ledger.wf(),
    ensures
        ledger.snapshot().well_formed(),
        ledger.snapshot().restored() == ledger,
{
    let snapshot = ledger.snapshot();
    lemma_latest_access(snapshot.users);
    lemma_latest_transaction(snapshot.accounts);
    assert forall|i: int| 0 <= i < snapshot.users.len() implies (
    #[trigger] snapshot.users[i]).valid() by {
        assert(ledger.users[i].valid());
    }
    assert forall|k: int| 0 <= k < snapshot.accounts.len() implies {
        &&& (#[trigger] snapshot.accounts[k]).valid()
        &&& has_user(snapshot.users, snapshot.accounts[k].account_owner_id)
    } by {
        assert(ledger.accounts[k].valid());
    }
    let latest = snapshot.latest_stamp();
    if ledger.users.len() == 0 {
        if ledger.accounts.len() > 0 {
            assert(has_user(ledger.users, ledger.accounts[0].account_owner_id));
        }
    } else {
        // The clock stands at a stamp, and no stamp lies after the latest.
        if exists|i: int|
            0 <= i < ledger.users.len() && (#[trigger] ledger.users[i]).last_accessed == ledger.now {
            let i = choose|i: int|
                0 <= i < ledger.users.len() && (#[trigger] ledger.users[i]).last_accessed
                    == ledger.now;
            assert(snapshot.users[i].last_accessed.not_after(latest_access(snapshot.users)));
        } else {
            let k = choose|k: int|
                0 <= k < ledger.accounts.len() && (#[trigger] ledger.accounts[k]).last_transaction
                    == ledger.now;
            assert(snapshot.accounts[k].last_transaction.not_after(
                latest_transaction(snapshot.accounts),
            ));
        }
        assert(ledger.now.not_after(latest));
        // The latest stamp is carried by a record, and none lies after the clock.
        if latest == latest_access(snapshot.users) {
            let i = choose|i: int|
                0 <= i < snapshot.users.len() && (#[trigger] snapshot.users[i]).last_accessed
                    == latest;
            assert(ledger.users[i].last_accessed.not_after(ledger.now));
        } else {
            let k = choose|k: int|
                0 <= k < snapshot.accounts.len() && (
                #[trigger] snapshot.accounts[k]).last_transaction == latest;
            assert(ledger.accounts[k].last_transaction.not_after(ledger.now));
        }
        assert(latest.not_after(ledger.now));
    }
    assert(latest == ledger.now);
}


/// Checks that every user is valid and that identifiers grow strictly.
/// Returns the newest identifier and the latest access.
fn check_users(users: &Vec<UserAccount>) -> (r: Option<(u64, Timestamp)>)
    ensures
        r is Some <==> (forall|i: int|
            0 <= i < users.len() ==> (#[trigger] records(users@)[i]).valid()) && ids_increase(
            records(users@),
        ),
        r matches Some((newest, latest)) ==> newest == newest_id(records(users@)) && latest
            == latest_access(records(users@)),
{
    let ghost all = records(users@);
    let mut newest: u64 = 0;
    let mut latest = Timestamp::from_micros(i64::MIN);
    let mut i: usize = 0;
    while i < users.len()
        invariant
            i <= users.len(),
            all == records(users@),
            forall|j: int| 0 <= j < i ==> (#[trigger] all[j]).valid(),
            ids_increase(all.take(i as int)),
            newest == newest_id(all.take(i as int)),
            latest == latest_access(all.take(i as int)),
        decreases users.len() - i,
    {
        let user = &users[i];
        if user.id <= newest || user.name.as_str().is_empty() || user.created_at.micros
            > user.last_accessed.micros {
            proof {
                if all[i as int].valid() {
                    // The identifier does not exceed that of the user before.
                    assert(i > 0);
                    assert(all.take(i as int)[i - 1] == all[i - 1]);
                    assert(!(all[i - 1].id < all[i as int].id));
                }
            }
            return None;
        }
        proof {
            let next = all.take(i + 1);
            assert(next.drop_last() =~= all.take(i as int));
            assert forall|a: int, b: int| 0 <= a < b < next.len() implies (#[trigger] next[a]).id < (
            #[trigger] next[b]).id by {
                if b == i {
                    if a < i - 1 {
                        assert(all.take(i as int)[a].id < all.take(i as int)[i - 1].id);
                    }
                    assert(all.take(i as int)[i - 1].id == newest);
                } else {
                    assert(all.take(i as int)[a].id < all.take(i as int)[b].id);
                }
            }
        }
        newest = user.id;
        if user.last_accessed.micros > latest.micros {
            latest = user.last_accessed;
        }
        i = i + 1;
    }
    assert(all.take(i as int) =~= all);
    Some((newest, latest))
}

/// Checks that every account is valid and belongs to one of `users`, that no
/// two belong to the same, and that the balances sum to no more than
/// `u64::MAX`. Returns the latest transaction.
fn check_accounts(users: &Vec<UserAccount>, accounts: &Vec<CheckingAccount>) -> (r: Option<
    Timestamp,
>)
    ensures
        r is Some <==> {
            &&& forall|k: int|
                0 <= k < accounts.len() ==> {
                    &&& (#[trigger] accounts[k]).valid()
                    &&& has_user(records(users@), accounts[k].account_owner_id)
                }
            &&& owners_differ(accounts@)
            &&& total_balance(accounts@) <= u64::MAX
        },
        r matches Some(latest) ==> latest == latest_transaction(accounts@),
{
    let mut total: u64 = 0;
    let mut latest = Timestamp::from_micros(i64::MIN);
    let mut k: usize = 0;
    while k < accounts.len()
        invariant
            k <= accounts.len(),
            forall|j: int|
                0 <= j < k ==> {
                    &&& (#[trigger] accounts[j]).valid()
                    &&& has_user(records(users@), accounts[j].account_owner_id)
                },
            owners_differ(accounts@.take(k as int)),
            total == total_balance(accounts@.take(k as int)),
            latest == latest_transaction(accounts@.take(k as int)),
        decreases accounts.len() - k,
    {
        let account = &accounts[k];
        proof {
            let next = accounts@.take(k + 1);
            assert(next.drop_last() =~= accounts@.take(k as int));
            lemma_total_prefix(accounts@, k + 1);
        }
        if account.created_at.micros > account.last_transaction.micros {
            return None;
        }
        if find_user_in(users, account.account_owner_id).is_none() {
            return None;
        }
        if find_account_in(accounts, k, account.account_owner_id).is_some() {
            proof {
                let front = accounts@.take(k as int);
                let j = choose|j: int|
                    0 <= j < front.len() && (#[trigger] front[j]).account_owner_id
                        == account.account_owner_id;
                assert(accounts[j].account_owner_id == accounts[k as int].account_owner_id);
            }
            return None;
        }
        if account.balance > u64::MAX - total {
            return None;
        }
        proof {
            let front = accounts@.take(k as int);
            let next = accounts@.take(k + 1);
            assert forall|a: int, b: int| 0 <= a < b < next.len() implies (
            #[trigger] next[a]).account_owner_id != (#[trigger] next[b]).account_owner_id by {
                if b == k {
                    assert(front[a].account_owner_id != account.account_owner_id);
                } else {
                    assert(front[a].account_owner_id != front[b].account_owner_id);
                }
            }
        }
        total = total + account.balance;
        if account.last_transaction.micros > latest.micros {
            latest = account.last_transaction;
        }
        k = k + 1;
    }
    assert(accounts@.take(k as int) =~= accounts@);
    Some(latest)
}

impl Ledger {
    /// A copy of the ledger's records.
    pub fn snapshot(&self) -> (snapshot: Snapshot)
        ensures
            snapshot@ == self@.snapshot(),
    {
        let mut users: Vec<UserAccount> = Vec::new();
        let mut i: usize = 0;
        while i < self.users.len()
            invariant
                i <= self.users.len(),
                users@ == self.users@.take(i as int),
            decreases self.users.len() - i,
        {
            users.push(self.users[i].clone());
            assert(users@ =~= self.users@.take(i + 1));
            i = i + 1;
        }
        let mut accounts: Vec<CheckingAccount> = Vec::new();
        let mut k: usize = 0;
        while k < self.accounts.len()
            invariant
                k <= self.accounts.len(),
                users@ == self.users@.take(self.users.len() as int),
                accounts@ == self.accounts@.take(k as int),
            decreases self.accounts.len() - k,
        {
            accounts.push(self.accounts[k]);
            assert(accounts@ =~= self.accounts@.take(k + 1));
            k = k + 1;
        }
        assert(users@ =~= self.users@);
        assert(accounts@ =~= self.accounts@);
        Snapshot { users, accounts }
    }

    /// The ledger that holds the records of `snapshot`, with the allocator
    /// continuing after the newest user and the clock standing at the
    /// latest stamp. Refused with `CorruptStore` exactly where the snapshot
    /// is not well formed.
    pub fn restore(snapshot: Snapshot) -> (r: Result<Ledger, Error>)
        ensures
            snapshot@.well_formed() ==> (r matches Ok(ledger) && ledger@ == snapshot@.restored()
                && ledger@.wf()),
            !snapshot@.well_formed() ==> (r matches Err(e) && e == Error::CorruptStore),
    {
        let (newest, accessed) = match check_users(&snapshot.users) {
            Some(found) => found,
            None => {
                return Err(Error::CorruptStore);
            },
        };
        let transacted = match check_accounts(&snapshot.users, &snapshot.accounts) {
            Some(found) => found,
            None => {
                return Err(Error::CorruptStore);
            },
        };
        let latest = if accessed.micros >= transacted.micros {
            accessed
        } else {
            transacted
        };
        proof {
            lemma_restored_wf(snapshot@);
        }
        Ok(
            Ledger {
                users: snapshot.users,
                accounts: snapshot.accounts,
                ids: IdAllocator::resuming_after(newest),
                clock: Clock::starting_at(latest),
            },
        )
    }
}

} // verus!
