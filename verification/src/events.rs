//! What the ledger hands back to its host: the notifications to record, the
//! display record, and the reasons for which an operation is refused.

use vstd::prelude::*;
use crate::account::AccountId;

verus! {

/// Notification that `value` moved. A mint has no `from`, a burn has no `to`.
#[derive(Clone, Copy, Debug, PartialEq, Eq)]
pub struct Transfer {
    pub from: Option<AccountId>,
    pub to: Option<AccountId>,
    pub value: u64,
}

/// Notification that `owner` set `spender`'s allowance to `value`.
#[derive(Clone, Copy, Debug, PartialEq, Eq)]
pub struct Approval {
    pub owner: AccountId,
    pub spender: AccountId,
    pub value: u64,
}

/// A snapshot of a ledger's descriptive data.
#[derive(Debug, PartialEq, Eq)]
pub struct DisplayInfo {
    pub name: String,
    pub symbol: String,
    pub total_supply: u64,
    pub decimals: u8,
    pub owner: AccountId,
}

impl Clone for DisplayInfo {
    fn clone(&self) -> (copy: DisplayInfo)
        ensures
            copy == *self,
    {
        DisplayInfo {
            name: self.name.clone(),
            symbol: self.symbol.clone(),
            total_supply: self.total_supply,
            decimals: self.decimals,
            owner: self.owner,
        }
    }
}

/// Why the ledger refused an operation. A refused operation changes nothing.
#[derive(Clone, Copy, Debug, PartialEq, Eq, Structural)]
pub enum LedgerError {
    /// The source account holds less than the amount to move.
    InsufficientFunds,
    /// The spender's allowance is less than the amount to move.
    InsufficientAllowance,
    /// The caller is not the owner.
    Unauthorized,
    /// The amount must be greater than zero.
    InvalidAmount,
    /// The supply would no longer fit in 64 bits.
    SupplyOverflow,
    /// The supply is less than the amount to destroy.
    InsufficientSupply,
}

} // verus!
