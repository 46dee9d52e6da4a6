//! An in-process account ledger: user records, checking accounts, atomic
//! transfers between two accounts, and a byte-exact snapshot format.
//!
//! Every function in this crate carries a contract over a mathematical model
//! of the ledger, and every contract is proved.

pub mod error;
pub mod clock;
pub mod ids;
pub mod account;
pub mod model;
pub mod rules;
pub mod ledger;
pub mod transfer;
pub mod snapshot;
pub mod codec;
pub mod persist;
pub mod history;
pub mod text;
pub mod selftest;

pub use crate::account::{AccountKind, CheckingAccount, UserAccount};
pub use crate::clock::{Clock, Timestamp};
pub use crate::error::Error;
pub use crate::ids::IdAllocator;
pub use crate::ledger::Ledger;
pub use crate::persist::{load, save, SaveAction, SaveJob, SaveStage};
pub use crate::snapshot::Snapshot;
pub use crate::transfer::Receipt;
