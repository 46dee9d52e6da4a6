//! The error kinds that ledger operations report.

use vstd::prelude::*;

verus! {

/// Why an operation on the ledger was refused.
///
/// Every refusal leaves the ledger exactly as it was.
#[derive(Clone, Copy, Debug, PartialEq, Eq, Structural)]
pub enum Error {
    /// No user carries the given identifier.
    OwnerNotFound,
    /// The user already owns a checking account.
    DuplicateAccount,
    /// The named owner has no checking account.
    AccountNotFound { owner_id: u64 },
    /// The named owner is not active and may not take part in a transfer.
    InactiveAccount { owner_id: u64 },
    /// The amount is zero.
    InvalidAmount,
    /// Source and destination are the same account.
    SelfTransfer,
    /// The source balance is smaller than the amount.
    InsufficientFunds,
    /// The caller's deadline had passed before the operation could start.
    Timeout,
    /// Durable storage reported a failure while a snapshot was being saved.
    PersistenceError,
    /// A stored snapshot is not a well-formed ledger.
    CorruptStore,
    /// A user's name is empty.
    InvalidName,
    /// Every identifier has been handed out.
    IdsExhausted,
    /// The deposit would push the sum of all balances past `u64::MAX`.
    BalanceOverflow,
}

} // verus!
