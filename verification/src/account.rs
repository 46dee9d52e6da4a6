//! The two kinds of record that the ledger keeps.

use vstd::prelude::*;
use crate::clock::Timestamp;

verus! {

/// A person known to the ledger.
#[derive(Debug, PartialEq, Eq)]
pub struct UserAccount {
    pub id: u64,
    pub name: String,
    pub active: bool,
    pub date_of_birth: String,
    pub address: String,
    pub social_security: u32,
    pub created_at: Timestamp,
    pub last_accessed: Timestamp,
}

/// What a `UserAccount` holds, with each text field as its sequence of
/// characters.
pub struct UserRecord {
    pub id: u64,
    pub name: Seq<char>,
    pub active: bool,
    pub date_of_birth: Seq<char>,
    pub address: Seq<char>,
    pub social_security: u32,
    pub created_at: Timestamp,
    pub last_accessed: Timestamp,
}

impl UserRecord {
    /// What every stored user satisfies: a positive identifier, a name, and
    /// no access before creation.
    pub open spec fn valid(self) -> bool {
        &&& self.id >= 1
        &&& self.name.len() > 0
        &&& self.created_at.not_after(self.last_accessed)
    }
}

impl View for UserAccount {
    type V = UserRecord;

    open spec fn view(&self) -> UserRecord {
        UserRecord {
            id: self.id,
            name: self.name@,
            active: self.active,
            date_of_birth: self.date_of_birth@,
            address: self.address@,
            social_security: self.social_security,
            created_at: self.created_at,
            last_accessed: self.last_accessed,
        }
    }
}

impl Clone for UserAccount {
    fn clone(&self) -> (copy: UserAccount)
        ensures
            copy == *self,
    {
        UserAccount {
            id: self.id,
            name: self.name.clone(),
            active: self.active,
            date_of_birth: self.date_of_birth.clone(),
            address: self.address.clone(),
            social_security: self.social_security,
            created_at: self.created_at,
            last_accessed: self.last_accessed,
        }
    }
}

/// The kinds of account. This ledger keeps checking accounts only.
#[derive(Clone, Copy, Debug, PartialEq, Eq, Structural)]
pub enum AccountKind {
    Checking,
}

impl AccountKind {
    /// The kind's name as it is shown to people.
    pub fn label(&self) -> (s: &'static str)
        ensures
            s@ == "Checking"@,
    {
        match self {
            AccountKind::Checking => "Checking",
        }
    }
}

/// A checking account. Its owner is a user of the same ledger; a user owns
/// at most one.
#[derive(Clone, Copy, Debug, PartialEq, Eq, Structural)]
pub struct CheckingAccount {
    pub account_owner_id: u64,
    pub account_type: AccountKind,
    /// In the smallest unit of the currency.
    pub balance: u64,
    pub created_at: Timestamp,
    pub last_transaction: Timestamp,
}

impl CheckingAccount {
    /// What every stored account satisfies: no transaction before creation.
    pub open spec fn valid(self) -> bool {
        self.created_at.not_after(self.last_transaction)
    }
}

} // verus!
