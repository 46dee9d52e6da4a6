//! Ledgers as the outcome of histories: whatever operations are tried, in
//! whatever order and at whatever readings of the clock, the ledger stays
//! well formed, its clock and its allocator never run backwards, and what is
//! saved of it loads as the same ledger.

use vstd::prelude::*;
use crate::clock::Timestamp;
use crate::codec::encode_snapshot;
use crate::error::Error;
use crate::model::LedgerView;
use crate::persist::{law_load_save, load_view};
use crate::rules::{
    lemma_create_checking_wf, lemma_create_user_wf, lemma_deposit_wf, lemma_empty_wf,
    lemma_set_active_wf, lemma_touch_user_wf, lemma_transfer_wf,
};

verus! {

/// One operation on a ledger, with its arguments and the reading of the
/// clock at which it is tried.
pub enum Step {
    CreateUser {
        name: Seq<char>,
        date_of_birth: Seq<char>,
        address: Seq<char>,
        social_security: u32,
        reading: Timestamp,
    },
    CreateChecking { owner_id: u64, reading: Timestamp },
    GetUser { id: u64, reading: Timestamp },
    SetActive { id: u64, active: bool, reading: Timestamp },
    Deposit { owner_id: u64, amount: u64 },
    Transfer { from: u64, to: u64, amount: u64, reading: Timestamp },
    TransferBy { from: u64, to: u64, amount: u64, deadline: Timestamp, reading: Timestamp },
}

impl LedgerView {
    /// What the operation makes of the ledger, or why it is refused.
    pub open spec fn attempt(self, step: Step) -> Result<LedgerView, Error> {
        match step {
            Step::CreateUser { name, date_of_birth, address, social_security, reading } => {
                self.create_user(name, date_of_birth, address, social_security, reading)
            },
            Step::CreateChecking { owner_id, reading } => self.create_checking(owner_id, reading),
            Step::GetUser { id, reading } => self.touch_user(id, reading),
            Step::SetActive { id, active, reading } => self.set_active(id, active, reading),
            Step::Deposit { owner_id, amount } => self.deposit(owner_id, amount),
            Step::Transfer { from, to, amount, reading } => self.transfer(
                from,
                to,
                amount,
                reading,
            ),
            Step::TransferBy { from, to, amount, deadline, reading } => self.transfer_by(
                from,
                to,
                amount,
                deadline,
                reading,
            ),
        }
    }

    /// The ledger after the operation was tried: a refused operation
    /// changes nothing.
    pub open spec fn after(self, step: Step) -> LedgerView {
        match self.attempt(step) {
            Ok(next) => next,
            Err(_) => self,
        }
    }

    /// The ledger after the operations were tried one after the other.
    pub open spec fn after_all(self, steps: Seq<Step>) -> LedgerView
        decreases steps.len(),
    {
        if steps.len() == 0 {
            self
        } else {
            self.after_all(steps.drop_last()).after(steps.last())
        }
    }
}

/// Whatever operation is tried, the ledger stays well formed; its clock and
/// its allocator do not run backwards; no user and no account disappears;
/// and the sum of all balances changes by a deposit only.
pub proof fn law_step_keeps_ledger(pre: LedgerView, step: Step)
    requires
        pre.wf(),
    ensures
        pre.after(step).wf(),
        pre.now.not_after(pre.after(step).now),
        pre.last_id <= pre.after(step).last_id,
        pre.users.len() <= pre.after(step).users.len(),
        pre.accounts.len() <= pre.after(step).accounts.len(),
        !(step is Deposit) ==> pre.after(step).total() == pre.total(),
{
    match step {
        Step::CreateUser { name, date_of_birth, address, social_security, reading } => {
            lemma_create_user_wf(pre, name, date_of_birth, address, social_security, reading);
        },
        Step::CreateChecking { owner_id, reading } => {
            lemma_create_checking_wf(pre, owner_id, reading);
            if let Ok(post) = pre.create_checking(owner_id, reading) {
                crate::model::lemma_total_push(pre.accounts, post.accounts.last());
            }
        },
        Step::GetUser { id, reading } => {
            lemma_touch_user_wf(pre, id, reading);
        },
        Step::SetActive { id, active, reading } => {
            lemma_set_active_wf(pre, id, active, reading);
        },
        Step::Deposit { owner_id, amount } => {
            lemma_deposit_wf(pre, owner_id, amount);
        },
        Step::Transfer { from, to, amount, reading } => {
            lemma_transfer_wf(pre, from, to, amount, reading);
            if pre.transfer(from, to, amount, reading) is Ok {
                crate::rules::law_transfer_moves_amount(pre, from, to, amount, reading);
            }
        },
        Step::TransferBy { from, to, amount, deadline, reading } => {
            lemma_transfer_wf(pre, from, to, amount, reading);
            if pre.transfer(from, to, amount, reading) is Ok {
                crate::rules::law_transfer_moves_amount(pre, from, to, amount, reading);
            }
        },
    }
}

/// Every ledger that a history of operations leads to from the empty ledger
/// is well formed.
pub proof fn law_history_keeps_ledger(steps: Seq<Step>)
    ensures
        LedgerView::empty().after_all(steps).wf(),
    decreases steps.len(),
{
    if steps.len() == 0 {
        lemma_empty_wf();
    } else {
        law_history_keeps_ledger(steps.drop_last());
        law_step_keeps_ledger(LedgerView::empty().after_all(steps.drop_last()), steps.last());
    }
}

/// After any history of operations, loading what was saved of the ledger
/// gives the same ledger: the same users and accounts with every
/// identifier, balance and instant. (The lengths of the texts must fit in
/// 64 bits for the ledger to be saved at all.)
pub proof fn law_saved_history_loads(steps: Seq<Step>)
    requires
        LedgerView::empty().after_all(steps).snapshot().encodable(),
    ensures
        load_view(Some(encode_snapshot(LedgerView::empty().after_all(steps).snapshot())))
            == Ok::<LedgerView, Error>(LedgerView::empty().after_all(steps)),
{
    law_history_keeps_ledger(steps);
    law_load_save(LedgerView::empty().after_all(steps));
}

} // verus!
