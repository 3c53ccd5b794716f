//! A fungible-token ledger: balances, allowances, and a supply that only its owner
//! can raise.
//!
//! - [`ledger`]: the ledger and its operations, each with its contract;
//! - [`model`]: the ledger as a mathematical value, and what each operation does to it;
//! - [`laws`]: what holds of every state that a ledger can reach;
//! - [`storage`]: the two tables, kept in `ink_storage` hash maps (trusted);
//! - [`records`], [`sums`]: lists of entries, and sums over tables;
//! - [`account`], [`events`]: accounts, notifications and refusals.

pub mod account;
pub mod events;
pub mod laws;
pub mod ledger;
pub mod model;
pub mod records;
pub mod storage;
pub mod sums;

pub use account::AccountId;
pub use events::{Approval, DisplayInfo, LedgerError, Transfer};
pub use ledger::Erc20;
pub use model::{LedgerState, Operation};
