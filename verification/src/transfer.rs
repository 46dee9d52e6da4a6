//! The transfer engine: moves money between two checking accounts, all or
//! nothing.

use vstd::prelude::*;
use crate::clock::Timestamp;
use crate::error::Error;
use crate::ledger::{agrees, Ledger};
use crate::model::{
    has_account, lemma_account_position, lemma_total_bounds_pair, lemma_user_position,
};
use crate::rules::{law_transfer_moves_amount, lemma_transfer_wf};

verus! {

/// The record of a transfer that took place.
#[derive(Clone, Copy, Debug, PartialEq, Eq, Structural)]
pub struct Receipt {
    pub from_owner_id: u64,
    pub to_owner_id: u64,
    pub amount: u64,
    /// The instant with which both accounts were stamped.
    pub timestamp: Timestamp,
}

impl Ledger {
    /// Whether the owner of an account is active.
    fn owner_is_active(&self, owner_id: u64) -> (active: bool)
        requires
            self@.wf(),
            has_account(self@.accounts, owner_id),
        ensures
            active == self@.user(owner_id).active,
    {
        match self.find_user(owner_id) {
            Some(i) => {
                proof {
                    lemma_user_position(self@.users, i as int);
                }
                self.users[i].active
            },
            None => false,
        }
    }

    /// Moves `amount` from the account of `from` to the account of `to`,
    /// at the instant that the clock hands out for `reading`.
    ///
    /// A transfer from an account to itself is refused with `SelfTransfer`.
    /// Nothing is remembered of earlier calls: the same call made twice
    /// moves the amount twice.
    ///
    /// On success the source balance has fallen and the destination balance
    /// has risen by exactly `amount`, both accounts carry the receipt's
    /// instant, and the sum of all balances is what it was. On refusal the
    /// ledger is what it was.
    pub fn transfer_at(&mut self, from: u64, to: u64, amount: u64, reading: Timestamp) -> (r:
        Result<Receipt, Error>)
        requires
            old(self)@.wf(),
        ensures
            final(self)@.wf(),
            agrees(old(self)@, final(self)@, old(self)@.transfer(from, to, amount, reading), r),
            r is Ok <==> amount > 0 && old(self)@.can_trade(from, to) && amount <= old(
                self,
            )@.account(from).balance,
            r matches Ok(receipt) ==> {
                &&& receipt == (Receipt {
                    from_owner_id: from,
                    to_owner_id: to,
                    amount,
                    timestamp: old(self)@.instant(reading),
                })
                &&& final(self)@.account(from).balance == old(self)@.account(from).balance
                    - amount
                &&& final(self)@.account(to).balance == old(self)@.account(to).balance + amount
                &&& final(self)@.account(from).last_transaction == receipt.timestamp
                &&& final(self)@.account(to).last_transaction == receipt.timestamp
                &&& final(self)@.total() == old(self)@.total()
            },
            r is Err ==> *final(self) == *old(self),
    {
        if amount == 0 {
            return Err(Error::InvalidAmount);
        }
        if from == to {
            return Err(Error::SelfTransfer);
        }
        let source = match self.find_account(from) {
            Some(k) => k,
            None => {
                return Err(Error::AccountNotFound { owner_id: from });
            },
        };
        let target = match self.find_account(to) {
            Some(k) => k,
            None => {
                return Err(Error::AccountNotFound { owner_id: to });
            },
        };
        if !self.owner_is_active(from) {
            return Err(Error::InactiveAccount { owner_id: from });
        }
        if !self.owner_is_active(to) {
            return Err(Error::InactiveAccount { owner_id: to });
        }
        proof {
            lemma_account_position(self@.accounts, source as int);
            lemma_account_position(self@.accounts, target as int);
        }
        if self.accounts[source].balance < amount {
            return Err(Error::InsufficientFunds);
        }
        proof {
            lemma_total_bounds_pair(self@.accounts, source as int, target as int);
        }
        let now = self.clock.observe(reading);
        self.accounts[source].balance = self.accounts[source].balance - amount;
        self.accounts[source].last_transaction = now;
        self.accounts[target].balance = self.accounts[target].balance + amount;
        self.accounts[target].last_transaction = now;
        proof {
            let post = old(self)@.transfer(from, to, amount, reading)->Ok_0;
            assert(self@.accounts =~= post.accounts);
            lemma_transfer_wf(old(self)@, from, to, amount, reading);
            law_transfer_moves_amount(old(self)@, from, to, amount, reading);
        }
        Ok(Receipt { from_owner_id: from, to_owner_id: to, amount, timestamp: now })
    }

    /// `transfer_at`, with a reading of the system clock.
    pub fn transfer(&mut self, from: u64, to: u64, amount: u64) -> (r: Result<Receipt, Error>)
        requires
            old(self)@.wf(),
        ensures
            final(self)@.wf(),
            exists|reading: Timestamp|
                reading.micros >= 0 && agrees(
                    old(self)@,
                    final(self)@,
                    #[trigger] old(self)@.transfer(from, to, amount, reading),
                    r,
                ),
            r is Ok <==> amount > 0 && old(self)@.can_trade(from, to) && amount <= old(
                self,
            )@.account(from).balance,
            r matches Ok(receipt) ==> {
                &&& receipt.from_owner_id == from
                &&& receipt.to_owner_id == to
                &&& receipt.amount == amount
                &&& receipt.timestamp == final(self)@.now
                &&& final(self)@.account(from).balance == old(self)@.account(from).balance
                    - amount
                &&& final(self)@.account(to).balance == old(self)@.account(to).balance + amount
                &&& final(self)@.account(from).last_transaction == receipt.timestamp
                &&& final(self)@.account(to).last_transaction == receipt.timestamp
                &&& final(self)@.total() == old(self)@.total()
            },
            r is Err ==> *final(self) == *old(self),
    {
        let reading = Timestamp::now();
        self.transfer_at(from, to, amount, reading)
    }

    /// `transfer_at` for a caller who had to wait for its turn: refused with
    /// `Timeout`, and the ledger left as it was, where `reading` lies after
    /// `deadline`.
    pub fn transfer_by_at(
        &mut self,
        from: u64,
        to: u64,
        amount: u64,
        deadline: Timestamp,
        reading: Timestamp,
    ) -> (r: Result<Receipt, Error>)
        requires
            old(self)@.wf(),
        ensures
            final(self)@.wf(),
            agrees(
                old(self)@,
                final(self)@,
                old(self)@.transfer_by(from, to, amount, deadline, reading),
                r,
            ),
            r matches Ok(receipt) ==> receipt == (Receipt {
                from_owner_id: from,
                to_owner_id: to,
                amount,
                timestamp: old(self)@.instant(reading),
            }),
            r is Err ==> *final(self) == *old(self),
    {
        if deadline.micros < reading.micros {
            return Err(Error::Timeout);
        }
        self.transfer_at(from, to, amount, reading)
    }

    /// `transfer_by_at`, with a reading of the system clock.
    pub fn transfer_by(&mut self, from: u64, to: u64, amount: u64, deadline: Timestamp) -> (r:
        Result<Receipt, Error>)
        requires
            old(self)@.wf(),
        ensures
            final(self)@.wf(),
            exists|reading: Timestamp|
                reading.micros >= 0 && agrees(
                    old(self)@,
                    final(self)@,
                    #[trigger] old(self)@.transfer_by(from, to, amount, deadline, reading),
                    r,
                ),
            r matches Ok(receipt) ==> {
                &&& receipt.from_owner_id == from
                &&& receipt.to_owner_id == to
                &&& receipt.amount == amount
                &&& receipt.timestamp == final(self)@.now
            },
            r is Err ==> *final(self) == *old(self),
    {
        let reading = Timestamp::now();
        self.transfer_by_at(from, to, amount, deadline, reading)
    }
}

} // verus!
