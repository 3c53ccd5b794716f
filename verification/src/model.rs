//! The ledger as a mathematical value: what each operation turns one state into.

use vstd::prelude::*;
use crate::account::AccountId;
use crate::events::LedgerError;
use crate::records::{distinct_keys, listed};
use crate::storage::can_store;
use crate::sums::{amount_at, sum_values};

verus! {

/// Everything a ledger records, with amounts as natural numbers.
///
/// A missing balance or allowance entry stands for zero. Writing an amount always
/// leaves an entry behind, also when the amount is zero.
pub struct LedgerState {
    pub name: Seq<char>,
    pub symbol: Seq<char>,
    pub decimals: u8,
    pub total_supply: nat,
    pub owner: AccountId,
    pub balances: Map<AccountId, nat>,
    pub allowances: Map<(AccountId, AccountId), nat>,
}

/// A request to change the ledger, with the caller that the host named.
pub enum Operation {
    /// The caller moves `value` of its own to `to`.
    Transfer { caller: AccountId, to: AccountId, value: u64 },
    /// The caller sets `spender`'s allowance to `value`.
    Approve { caller: AccountId, spender: AccountId, value: u64 },
    /// The caller moves `value` from `from` to `to` out of its allowance.
    TransferFrom { caller: AccountId, from: AccountId, to: AccountId, value: u64 },
    /// The caller passes ownership to `to`.
    TransferOwner { caller: AccountId, to: AccountId },
    /// The caller creates `value` units for `to`.
    Mint { caller: AccountId, to: AccountId, value: u64 },
    /// `value` units of `from` are destroyed, whoever calls.
    Burn { from: AccountId, value: u64 },
}

impl LedgerState {
    /// What `account` holds.
    pub open spec fn balance_of(self, account: AccountId) -> nat {
        amount_at(self.balances, account)
    }

    /// How much `spender` may still move out of `owner`'s balance.
    pub open spec fn allowance(self, owner: AccountId, spender: AccountId) -> nat {
        amount_at(self.allowances, (owner, spender))
    }

    /// The invariant of a ledger: the supply is the sum of all balances, and the
    /// supply and every allowance fit in 64 bits. (Every balance then fits too.)
    pub open spec fn wf(self) -> bool {
        &&& self.balances.dom().finite()
        &&& self.allowances.dom().finite()
        &&& self.total_supply == sum_values(self.balances)
        &&& self.total_supply <= u64::MAX
        &&& forall|pair: (AccountId, AccountId)|
            self.allowances.dom().contains(pair) ==> #[trigger] self.allowances[pair] <= u64::MAX
    }

    /// Whether the tables have room for two more balance entries and one more
    /// allowance entry, which is as much as any one operation adds. The tables count
    /// their entries in a `u32`.
    pub open spec fn has_room(self) -> bool {
        &&& self.balances.dom().len() + 2 <= u32::MAX
        &&& self.allowances.dom().len() + 1 <= u32::MAX
    }

    /// Whether the tables can take the entries that `operation` writes: every
    /// account and pair that it writes to either has an entry already or can still
    /// be counted. A refused operation writes nothing.
    pub open spec fn has_room_for(self, operation: Operation) -> bool {
        let accounts = self.balances.dom();
        let pairs = self.allowances.dom();
        self.refusal(operation) is Some || match operation {
            Operation::Transfer { caller, to, value } => {
                can_store(accounts, caller) && can_store(accounts.insert(caller), to)
            },
            Operation::Approve { caller, spender, value } => can_store(pairs, (caller, spender)),
            Operation::TransferFrom { caller, from, to, value } => {
                &&& can_store(pairs, (from, caller))
                &&& can_store(accounts, from)
                &&& can_store(accounts.insert(from), to)
            },
            Operation::TransferOwner { caller, to } => true,
            Operation::Mint { caller, to, value } => can_store(accounts, to),
            Operation::Burn { from, value } => true,
        }
    }

    /// A ledger before its first mint: no supply, no entries.
    pub open spec fn empty(
        name: Seq<char>,
        symbol: Seq<char>,
        decimals: u8,
        controller: AccountId,
    ) -> LedgerState {
        LedgerState {
            name,
            symbol,
            decimals,
            total_supply: 0,
            owner: controller,
            balances: Map::empty(),
            allowances: Map::empty(),
        }
    }

    /// A freshly created ledger: the whole initial supply sits with the controller,
    /// who is also the owner.
    pub open spec fn created(
        name: Seq<char>,
        symbol: Seq<char>,
        initial_supply: nat,
        decimals: u8,
        controller: AccountId,
    ) -> LedgerState {
        LedgerState::empty(name, symbol, decimals, controller).minted(controller, initial_supply)
    }

    /// Whether two lists of entries can be read back as the tables of a ledger: no
    /// key is repeated, neither list is longer than a table can count, and the
    /// balances sum to a supply that fits in 64 bits.
    pub open spec fn restorable(
        balances: Seq<(AccountId, u64)>,
        allowances: Seq<((AccountId, AccountId), u64)>,
    ) -> bool {
        &&& distinct_keys(balances)
        &&& distinct_keys(allowances)
        &&& balances.len() <= u32::MAX
        &&& allowances.len() <= u32::MAX
        &&& sum_values(listed(balances)) <= u64::MAX
    }

    /// The ledger that holds the listed balances and allowances. Its supply is the
    /// sum of the balances.
    pub open spec fn restored(
        name: Seq<char>,
        symbol: Seq<char>,
        decimals: u8,
        owner: AccountId,
        balances: Seq<(AccountId, u64)>,
        allowances: Seq<((AccountId, AccountId), u64)>,
    ) -> LedgerState {
        LedgerState {
            name,
            symbol,
            decimals,
            total_supply: sum_values(listed(balances)),
            owner,
            balances: listed(balances),
            allowances: listed(allowances),
        }
    }

    /// Why the ledger refuses `operation` in this state, if it does. Where several
    /// reasons apply, the first in the order of the tests counts.
    pub open spec fn refusal(self, operation: Operation) -> Option<LedgerError> {
        match operation {
            Operation::Transfer { caller, to, value } => {
                if value > self.balance_of(caller) {
                    Some(LedgerError::InsufficientFunds)
                } else {
                    None
                }
            },
            Operation::Approve { caller, spender, value } => None,
            Operation::TransferFrom { caller, from, to, value } => {
                if value > self.allowance(from, caller) {
                    Some(LedgerError::InsufficientAllowance)
                } else if value > self.balance_of(from) {
                    Some(LedgerError::InsufficientFunds)
                } else {
                    None
                }
            },
            Operation::TransferOwner { caller, to } => {
                if caller != self.owner {
                    Some(LedgerError::Unauthorized)
                } else {
                    None
                }
            },
            Operation::Mint { caller, to, value } => {
                if caller != self.owner {
                    Some(LedgerError::Unauthorized)
                } else if self.total_supply + value > u64::MAX {
                    Some(LedgerError::SupplyOverflow)
                } else {
                    None
                }
            },
            Operation::Burn { from, value } => {
                if value == 0 {
                    Some(LedgerError::InvalidAmount)
                } else if value > self.total_supply {
                    Some(LedgerError::InsufficientSupply)
                } else if value > self.balance_of(from) {
                    Some(LedgerError::InsufficientFunds)
                } else {
                    None
                }
            },
        }
    }

    /// The state that `operation` leaves behind: the state as it was where the
    /// operation is refused, and its full effect where it is not.
    pub open spec fn after(self, operation: Operation) -> LedgerState {
        if self.refusal(operation) is Some {
            self
        } else {
            match operation {
                Operation::Transfer { caller, to, value } => self.transferred(
                    caller,
                    to,
                    value as nat,
                ),
                Operation::Approve { caller, spender, value } => self.approved(
                    caller,
                    spender,
                    value as nat,
                ),
                Operation::TransferFrom { caller, from, to, value } => self.spent(
                    caller,
                    from,
                    to,
                    value as nat,
                ),
                Operation::TransferOwner { caller, to } => self.owned_by(to),
                Operation::Mint { caller, to, value } => self.minted(to, value as nat),
                Operation::Burn { from, value } => self.burned(from, value as nat),
            }
        }
    }

    /// The state after a whole sequence of operations, taken in order.
    pub open spec fn after_all(self, operations: Seq<Operation>) -> LedgerState
        decreases operations.len(),
    {
        if operations.len() == 0 {
            self
        } else {
            self.after_all(operations.drop_last()).after(operations.last())
        }
    }

    /// The state after `value` moved from `from` to `to`. Moving to oneself changes
    /// no amount.
    pub open spec fn transferred(self, from: AccountId, to: AccountId, value: nat) -> LedgerState
        recommends
            value <= self.balance_of(from),
    {
        let balances = if from == to {
            self.balances.insert(from, self.balance_of(from))
        } else {
            self.balances.insert(from, (self.balance_of(from) - value) as nat).insert(
                to,
                self.balance_of(to) + value,
            )
        };
        LedgerState { balances, ..self }
    }

    /// The state after `owner` set `spender`'s allowance to `value`.
    pub open spec fn approved(
        self,
        owner: AccountId,
        spender: AccountId,
        value: nat,
    ) -> LedgerState {
        LedgerState { allowances: self.allowances.insert((owner, spender), value), ..self }
    }

    /// The state after `spender` used `value` of the allowance that `from` gave,
    /// to move `value` from `from` to `to`.
    pub open spec fn spent(
        self,
        spender: AccountId,
        from: AccountId,
        to: AccountId,
        value: nat,
    ) -> LedgerState
        recommends
            value <= self.allowance(from, spender),
            value <= self.balance_of(from),
    {
        let moved = self.transferred(from, to, value);
        LedgerState {
            allowances: self.allowances.insert(
                (from, spender),
                (self.allowance(from, spender) - value) as nat,
            ),
            ..moved
        }
    }

    /// The state after ownership passed to `to`.
    pub open spec fn owned_by(self, to: AccountId) -> LedgerState {
        LedgerState { owner: to, ..self }
    }

    /// The state after `value` new units were credited to `to`.
    pub open spec fn minted(self, to: AccountId, value: nat) -> LedgerState {
        LedgerState {
            total_supply: self.total_supply + value,
            balances: self.balances.insert(to, self.balance_of(to) + value),
            ..self
        }
    }

    /// The state after `value` units were taken from `from` and destroyed.
    pub open spec fn burned(self, from: AccountId, value: nat) -> LedgerState
        recommends
            value <= self.balance_of(from),
    {
        LedgerState {
            total_supply: (self.total_supply - value) as nat,
            balances: self.balances.insert(from, (self.balance_of(from) - value) as nat),
            ..self
        }
    }
}

} // verus!
