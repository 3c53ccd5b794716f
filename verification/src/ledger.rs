//! The ledger itself: its state and the operations that change it.
//!
//! The host names the caller of every operation and records the notification that a
//! successful operation returns. An operation either takes full effect or refuses
//! and leaves the ledger as it was.
//!
//! Every contract speaks of the ledger's view, a [`LedgerState`]. An operation asks
//! that the ledger is well-formed, which every ledger made here is, and that the
//! tables have room for what it writes, which [`Erc20::has_room`] tests.

use vstd::prelude::*;
use crate::account::AccountId;
use crate::events::{Approval, DisplayInfo, LedgerError, Transfer};
use crate::laws::{
    lemma_amounts_in_range, lemma_approved_wf, lemma_burned_wf, lemma_minted_wf,
    lemma_owned_by_wf, lemma_restored_wf, lemma_spent_wf, lemma_transferred_wf,
};
use crate::model::{LedgerState, Operation};
use crate::records::{
    as_amounts, distinct_keys, lemma_as_amounts, lemma_distinct_extends,
    lemma_listed_each_once, lemma_listed_keys, lemma_listed_sum_grows, lemma_repeated_key,
    listed,
};
use crate::storage::{
    allowance_entries, allowances_get, allowances_insert, allowances_len, allowances_list,
    allowances_new, balance_entries, balances_get, balances_insert, balances_len, balances_list,
    balances_new, can_store, AllowanceTable, BalanceTable,
};
use crate::sums::{lemma_sum_insert, sum_values};

verus! {

/// Fills a new balance table from a list of entries and adds the amounts up.
///
/// Gives nothing when a key is repeated, when the list is longer than a table can
/// count, or when the amounts sum to more than fits in 64 bits.
fn fill_balances(list: &Vec<(AccountId, u64)>) -> (filled: Option<(BalanceTable, u64)>)
    ensures
        filled is Some <==> {
            &&& distinct_keys(list@)
            &&& list@.len() <= u32::MAX
            &&& sum_values(listed(list@)) <= u64::MAX
        },
        filled matches Some(pair) ==> {
            &&& as_amounts(balance_entries(pair.0)) == listed(list@)
            &&& pair.1 == sum_values(listed(list@))
        },
{
    if list.len() > u32::MAX as usize {
        return None;
    }
    let mut table = balances_new();
    let mut total: u64 = 0;
    let mut i: usize = 0;
    proof {
        assert(as_amounts(balance_entries(table)) =~= listed(list@.take(0)));
    }
    while i < list.len()
        invariant
            i <= list.len() <= u32::MAX,
            distinct_keys(list@.take(i as int)),
            as_amounts(balance_entries(table)) == listed(list@.take(i as int)),
            total == sum_values(listed(list@.take(i as int))),
        decreases list.len() - i,
    {
        let account = list[i].0;
        let amount = list[i].1;
        proof {
            lemma_listed_keys(list@.take(i as int));
            lemma_as_amounts(balance_entries(table), account, amount);
        }
        match balances_get(&table, &account) {
            Some(_) => {
                proof {
                    lemma_repeated_key(list@, i as int);
                }
                return None;
            },
            None => {},
        }
        let sum = match total.checked_add(amount) {
            Some(sum) => sum,
            None => {
                proof {
                    if distinct_keys(list@) {
                        lemma_listed_sum_grows(list@, i as int);
                        lemma_listed_sum_grows(list@, i + 1);
                    }
                }
                return None;
            },
        };
        proof {
            lemma_distinct_extends(list@, i as int);
            lemma_sum_insert(listed(list@.take(i as int)), account, amount as nat);
        }
        balances_insert(&mut table, account, amount);
        total = sum;
        i += 1;
    }
    proof {
        assert(list@.take(i as int) == list@);
    }
    Some((table, total))
}

/// Fills a new allowance table from a list of entries.
///
/// Gives nothing when a key is repeated or when the list is longer than a table
/// can count.
fn fill_allowances(list: &Vec<((AccountId, AccountId), u64)>) -> (filled: Option<AllowanceTable>)
    ensures
        filled is Some <==> distinct_keys(list@) && list@.len() <= u32::MAX,
        filled matches Some(table) ==> as_amounts(allowance_entries(table)) == listed(list@),
{
    if list.len() > u32::MAX as usize {
        return None;
    }
    let mut table = allowances_new();
    let mut i: usize = 0;
    proof {
        assert(as_amounts(allowance_entries(table)) =~= listed(list@.take(0)));
    }
    while i < list.len()
        invariant
            i <= list.len() <= u32::MAX,
            distinct_keys(list@.take(i as int)),
            as_amounts(allowance_entries(table)) == listed(list@.take(i as int)),
        decreases list.len() - i,
    {
        let owner = list[i].0.0;
        let spender = list[i].0.1;
        let amount = list[i].1;
        proof {
            lemma_listed_keys(list@.take(i as int));
            lemma_as_amounts(allowance_entries(table), (owner, spender), amount);
        }
        match allowances_get(&table, &owner, &spender) {
            Some(_) => {
                proof {
                    lemma_repeated_key(list@, i as int);
                }
                return None;
            },
            None => {},
        }
        proof {
            lemma_distinct_extends(list@, i as int);
        }
        allowances_insert(&mut table, owner, spender, amount);
        i += 1;
    }
    proof {
        assert(list@.take(i as int) == list@);
    }
    Some(table)
}

/// A fungible-token ledger.
pub struct Erc20 {
    name: String,
    symbol: String,
    total_supply: u64,
    decimals: u8,
    owner: AccountId,
    balances: BalanceTable,
    allowances: AllowanceTable,
}

impl View for Erc20 {
    type V = LedgerState;

    closed spec fn view(&self) -> LedgerState {
        LedgerState {
            name: self.name@,
            symbol: self.symbol@,
            decimals: self.decimals,
            total_supply: self.total_supply as nat,
            owner: self.owner,
            balances: as_amounts(balance_entries(self.balances)),
            allowances: as_amounts(allowance_entries(self.allowances)),
        }
    }
}

impl Erc20 {
    /// Creates the ledger and mints the whole initial supply to `controller`, who
    /// becomes the owner. Returns the ledger and the notification of that first
    /// mint, which is made even when the initial supply is zero.
    pub fn new(
        name: String,
        symbol: String,
        initial_supply: u64,
        decimals: u8,
        controller: AccountId,
    ) -> (made: (Erc20, Transfer))
        ensures
            made.0@ == LedgerState::created(
                name@,
                symbol@,
                initial_supply as nat,
                decimals,
                controller,
            ),
            made.0@.wf(),
            made.1 == (Transfer { from: None, to: Some(controller), value: initial_supply }),
    {
        let mut instance = Erc20 {
            name,
            symbol,
            total_supply: 0,
            decimals,
            owner: controller,
            balances: balances_new(),
            allowances: allowances_new(),
        };
        proof {
            assert(instance@.balances =~= Map::<AccountId, nat>::empty());
            assert(instance@.allowances =~= Map::<(AccountId, AccountId), nat>::empty());
            assert(instance@ == LedgerState::empty(name@, symbol@, decimals, controller));
        }
        match instance._mint_token(controller, initial_supply) {
            Ok(minted) => (instance, minted),
            Err(_) => unreached(),
        }
    }

    /// Creates a ledger with empty name and symbol, no supply, no decimals, and the
    /// all-zero account as owner.
    pub fn default() -> (made: (Erc20, Transfer))
        ensures
            made.0@ == LedgerState::created(
                Seq::empty(),
                Seq::empty(),
                0,
                0,
                made.0@.owner,
            ),
            made.0@.owner.spec_bytes() == Seq::new(32, |i: int| 0u8),
            made.0@.wf(),
            made.1 == (Transfer { from: None, to: Some(made.0@.owner), value: 0 }),
    {
        let zero = AccountId::new([0u8;32]);
        assert(zero.spec_bytes() =~= Seq::new(32, |i: int| 0u8));
        Erc20::new(String::new(), String::new(), 0, 0, zero)
    }

    /// Reads a ledger back from its descriptive data and the lists of its balance
    /// and allowance entries. The supply is not handed in: it is the sum of the
    /// listed balances.
    ///
    /// Gives nothing when a list repeats a key or is longer than a table can count,
    /// or when the balances sum to more than fits in 64 bits.
    pub fn restore(
        name: String,
        symbol: String,
        decimals: u8,
        owner: AccountId,
        balances: &Vec<(AccountId, u64)>,
        allowances: &Vec<((AccountId, AccountId), u64)>,
    ) -> (restored: Option<Erc20>)
        ensures
            restored is Some <==> LedgerState::restorable(balances@, allowances@),
            restored matches Some(ledger) ==> {
                &&& ledger@.wf()
                &&& ledger@ == LedgerState::restored(
                    name@,
                    symbol@,
                    decimals,
                    owner,
                    balances@,
                    allowances@,
                )
            },
    {
        let (balance_table, total_supply) = match fill_balances(balances) {
            Some(filled) => filled,
            None => {
                return None;
            },
        };
        let allowance_table = match fill_allowances(allowances) {
            Some(filled) => filled,
            None => {
                return None;
            },
        };
        proof {
            lemma_restored_wf(name@, symbol@, decimals, owner, balances@, allowances@);
        }
        Some(
            Erc20 {
                name,
                symbol,
                total_supply,
                decimals,
                owner,
                balances: balance_table,
                allowances: allowance_table,
            },
        )
    }

    /// Every balance entry, once each, in no particular order.
    pub fn balances(&self) -> (list: Vec<(AccountId, u64)>)
        ensures
            distinct_keys(list@),
            listed(list@) == self@.balances,
            list@.len() == self@.balances.dom().len(),
            list@.len() <= u32::MAX,
    {
        let list = balances_list(&self.balances);
        proof {
            lemma_listed_each_once(list@, balance_entries(self.balances));
            lemma_as_amounts(balance_entries(self.balances), self.owner, 0);
        }
        list
    }

    /// Every allowance entry, once each, in no particular order.
    pub fn allowances(&self) -> (list: Vec<((AccountId, AccountId), u64)>)
        ensures
            distinct_keys(list@),
            listed(list@) == self@.allowances,
            list@.len() == self@.allowances.dom().len(),
            list@.len() <= u32::MAX,
    {
        let list = allowances_list(&self.allowances);
        proof {
            lemma_listed_each_once(list@, allowance_entries(self.allowances));
            lemma_as_amounts(allowance_entries(self.allowances), (self.owner, self.owner), 0);
        }
        list
    }

    /// The display name, fixed at creation.
    pub fn name(&self) -> (name: String)
        ensures
            name@ == self@.name,
    {
        self.name.clone()
    }

    /// The display symbol, fixed at creation.
    pub fn symbol(&self) -> (symbol: String)
        ensures
            symbol@ == self@.symbol,
    {
        self.symbol.clone()
    }

    /// The number of units in existence.
    pub fn total_supply(&self) -> (supply: u64)
        ensures
            supply == self@.total_supply,
    {
        self.total_supply
    }

    /// The display precision, fixed at creation.
    pub fn decimals(&self) -> (decimals: u8)
        ensures
            decimals == self@.decimals,
    {
        self.decimals
    }

    /// The account that may mint and pass ownership on.
    pub fn owner(&self) -> (owner: AccountId)
        ensures
            owner == self@.owner,
    {
        self.owner
    }

    /// A snapshot of the descriptive data.
    pub fn query_info(&self) -> (info: DisplayInfo)
        ensures
            info.name@ == self@.name,
            info.symbol@ == self@.symbol,
            info.total_supply == self@.total_supply,
            info.decimals == self@.decimals,
            info.owner == self@.owner,
    {
        DisplayInfo {
            name: self.name.clone(),
            symbol: self.symbol.clone(),
            total_supply: self.total_supply,
            decimals: self.decimals,
            owner: self.owner,
        }
    }

    /// Accepts a payment of `amount` without recording anything.
    pub fn into_info(&mut self, amount: u64) -> (accepted: bool)
        ensures
            accepted,
            final(self)@ == old(self)@,
    {
        true
    }

    /// What `owner` holds; zero for an account without an entry.
    pub fn balance_of(&self, owner: AccountId) -> (balance: u64)
        ensures
            balance == self@.balance_of(owner),
    {
        self.balance_of_or_zero(&owner)
    }

    /// How much `spender` may still move out of `owner`'s balance; zero for a pair
    /// without an entry.
    pub fn allowance(&self, owner: AccountId, spender: AccountId) -> (allowance: u64)
        ensures
            allowance == self@.allowance(owner, spender),
    {
        self.allowance_of_or_zero(&owner, &spender)
    }

    /// Whether the tables can take the entries that any one operation may add: two
    /// balance entries and one allowance entry. The tables count their entries in a
    /// `u32`.
    pub fn has_room(&self) -> (room: bool)
        ensures
            room == self@.has_room(),
    {
        proof {
            lemma_as_amounts(balance_entries(self.balances), self.owner, 0);
            lemma_as_amounts(allowance_entries(self.allowances), (self.owner, self.owner), 0);
        }
        let accounts = balances_len(&self.balances);
        let pairs = allowances_len(&self.allowances);
        accounts <= u32::MAX - 2 && pairs <= u32::MAX - 1
    }

    /// Moves `value` from the caller's balance to `to`.
    ///
    /// Refused with `InsufficientFunds` when the caller holds less than `value`.
    pub fn transfer(
        &mut self,
        caller: AccountId,
        to: AccountId,
        value: u64,
    ) -> (outcome: Result<Transfer, LedgerError>)
        requires
            old(self)@.wf(),
            old(self)@.has_room_for((Operation::Transfer { caller, to, value })),
        ensures
            final(self)@.wf(),
            final(self)@ == old(self)@.after((Operation::Transfer { caller, to, value })),
            old(self)@.refusal((Operation::Transfer { caller, to, value })) == match outcome {
                Ok(_) => None,
                Err(error) => Some(error),
            },
            match outcome {
                Ok(event) => {
                    &&& value <= old(self)@.balance_of(caller)
                    &&& final(self)@ == old(self)@.transferred(caller, to, value as nat)
                    &&& event == (Transfer { from: Some(caller), to: Some(to), value })
                },
                Err(error) => {
                    &&& value > old(self)@.balance_of(caller)
                    &&& error == LedgerError::InsufficientFunds
                    &&& final(self)@ == old(self)@
                },
            },
    {
        self.transfer_from_to(caller, to, value)
    }

    /// Sets the allowance that the caller gives to `spender` to `value`, replacing
    /// whatever it was. Never refused.
    pub fn approve(
        &mut self,
        caller: AccountId,
        spender: AccountId,
        value: u64,
    ) -> (event: Approval)
        requires
            old(self)@.wf(),
            old(self)@.has_room_for((Operation::Approve { caller, spender, value })),
        ensures
            final(self)@.wf(),
            final(self)@ == old(self)@.after((Operation::Approve { caller, spender, value })),
            final(self)@ == old(self)@.approved(caller, spender, value as nat),
            final(self)@.allowance(caller, spender) == value,
            event == (Approval { owner: caller, spender, value }),
    {
        proof {
            lemma_as_amounts(allowance_entries(self.allowances), (caller, spender), value);
            lemma_approved_wf(self@, caller, spender, value as nat);
        }
        allowances_insert(&mut self.allowances, caller, spender, value);
        Approval { owner: caller, spender, value }
    }

    /// Moves `value` from `from` to `to` on the strength of the allowance that
    /// `from` gave the caller, and lowers that allowance by `value`.
    ///
    /// Refused with `InsufficientAllowance` when the allowance is less than `value`;
    /// otherwise with `InsufficientFunds` when `from` holds less than `value`. A
    /// refusal leaves the allowance untouched as well.
    pub fn transfer_from(
        &mut self,
        caller: AccountId,
        from: AccountId,
        to: AccountId,
        value: u64,
    ) -> (outcome: Result<Transfer, LedgerError>)
        requires
            old(self)@.wf(),
            old(self)@.has_room_for((Operation::TransferFrom { caller, from, to, value })),
        ensures
            final(self)@.wf(),
            final(self)@ == old(self)@.after((Operation::TransferFrom { caller, from, to, value })),
            old(self)@.refusal((Operation::TransferFrom { caller, from, to, value }))
                == match outcome {
                Ok(_) => None,
                Err(error) => Some(error),
            },
            match outcome {
                Ok(event) => {
                    &&& value <= old(self)@.allowance(from, caller)
                    &&& value <= old(self)@.balance_of(from)
                    &&& final(self)@ == old(self)@.spent(caller, from, to, value as nat)
                    &&& event == (Transfer { from: Some(from), to: Some(to), value })
                },
                Err(error) => {
                    &&& final(self)@ == old(self)@
                    &&& error == if value > old(self)@.allowance(from, caller) {
                        LedgerError::InsufficientAllowance
                    } else {
                        LedgerError::InsufficientFunds
                    }
                    &&& value > old(self)@.allowance(from, caller) || value > old(self)@.balance_of(
                        from,
                    )
                },
            },
    {
        let allowance = self.allowance_of_or_zero(&from, &caller);
        if allowance < value {
            return Err(LedgerError::InsufficientAllowance);
        }
        if self.balance_of_or_zero(&from) < value {
            return Err(LedgerError::InsufficientFunds);
        }
        proof {
            lemma_as_amounts(
                allowance_entries(self.allowances),
                (from, caller),
                (allowance - value) as u64,
            );
            lemma_spent_wf(self@, caller, from, to, value as nat);
        }
        allowances_insert(&mut self.allowances, from, caller, allowance - value);
        proof {
            assert(self@ == (LedgerState {
                allowances: old(self)@.spent(caller, from, to, value as nat).allowances,
                ..old(self)@
            }));
        }
        self.transfer_from_to(from, to, value)
    }

    /// Passes ownership to `to`.
    ///
    /// Refused with `Unauthorized` unless the caller is the owner.
    pub fn transfer_owner(
        &mut self,
        caller: AccountId,
        to: AccountId,
    ) -> (outcome: Result<(), LedgerError>)
        requires
            old(self)@.wf(),
        ensures
            final(self)@.wf(),
            final(self)@ == old(self)@.after((Operation::TransferOwner { caller, to })),
            old(self)@.refusal((Operation::TransferOwner { caller, to })) == match outcome {
                Ok(_) => None,
                Err(error) => Some(error),
            },
            match outcome {
                Ok(_) => caller == old(self)@.owner && final(self)@ == old(self)@.owned_by(to),
                Err(error) => {
                    &&& caller != old(self)@.owner
                    &&& error == LedgerError::Unauthorized
                    &&& final(self)@ == old(self)@
                },
            },
    {
        if caller != self.owner {
            return Err(LedgerError::Unauthorized);
        }
        proof {
            lemma_owned_by_wf(self@, to);
        }
        self.owner = to;
        Ok(())
    }

    /// Creates `value` new units and credits them to `to`.
    ///
    /// Refused with `Unauthorized` unless the caller is the owner; otherwise with
    /// `SupplyOverflow` when the supply would no longer fit in 64 bits.
    pub fn mint_token_by_owner(
        &mut self,
        caller: AccountId,
        to: AccountId,
        value: u64,
    ) -> (outcome: Result<Transfer, LedgerError>)
        requires
            old(self)@.wf(),
            old(self)@.has_room_for((Operation::Mint { caller, to, value })),
        ensures
            final(self)@.wf(),
            final(self)@ == old(self)@.after((Operation::Mint { caller, to, value })),
            old(self)@.refusal((Operation::Mint { caller, to, value })) == match outcome {
                Ok(_) => None,
                Err(error) => Some(error),
            },
            match outcome {
                Ok(event) => {
                    &&& caller == old(self)@.owner
                    &&& old(self)@.total_supply + value <= u64::MAX
                    &&& final(self)@ == old(self)@.minted(to, value as nat)
                    &&& event == (Transfer { from: None, to: Some(to), value })
                },
                Err(error) => {
                    &&& final(self)@ == old(self)@
                    &&& error == if caller != old(self)@.owner {
                        LedgerError::Unauthorized
                    } else {
                        LedgerError::SupplyOverflow
                    }
                    &&& caller != old(self)@.owner || old(self)@.total_supply + value > u64::MAX
                },
            },
    {
        if caller != self.owner {
            return Err(LedgerError::Unauthorized);
        }
        self._mint_token(to, value)
    }

    /// Takes `value` units from `from` and destroys them. Any caller may do so.
    ///
    /// Refused with `InvalidAmount` when `value` is zero; otherwise with
    /// `InsufficientSupply` when the supply is less than `value`; otherwise with
    /// `InsufficientFunds` when `from` holds less than `value`.
    pub fn destroy_token_by_owner(
        &mut self,
        from: AccountId,
        value: u64,
    ) -> (outcome: Result<Transfer, LedgerError>)
        requires
            old(self)@.wf(),
        ensures
            final(self)@.wf(),
            final(self)@ == old(self)@.after((Operation::Burn { from, value })),
            old(self)@.refusal((Operation::Burn { from, value })) == match outcome {
                Ok(_) => None,
                Err(error) => Some(error),
            },
            match outcome {
                Ok(event) => {
                    &&& 0 < value <= old(self)@.balance_of(from)
                    &&& final(self)@ == old(self)@.burned(from, value as nat)
                    &&& event == (Transfer { from: Some(from), to: None, value })
                },
                Err(error) => {
                    &&& final(self)@ == old(self)@
                    &&& error == if value == 0 {
                        LedgerError::InvalidAmount
                    } else if value > old(self)@.total_supply {
                        LedgerError::InsufficientSupply
                    } else {
                        LedgerError::InsufficientFunds
                    }
                    &&& value == 0 || value > old(self)@.balance_of(from)
                },
            },
    {
        if value == 0 {
            return Err(LedgerError::InvalidAmount);
        }
        proof {
            lemma_amounts_in_range(self@, from, from, from);
        }
        self._destroy_token(from, value)
    }

    /// Moves `value` from `from` to `to`, the source's consent being settled.
    fn transfer_from_to(
        &mut self,
        from: AccountId,
        to: AccountId,
        value: u64,
    ) -> (outcome: Result<Transfer, LedgerError>)
        requires
            old(self)@.wf(),
            value <= old(self)@.balance_of(from) ==> {
                &&& can_store(old(self)@.balances.dom(), from)
                &&& can_store(old(self)@.balances.dom().insert(from), to)
            },
        ensures
            final(self)@.wf(),
            match outcome {
                Ok(event) => {
                    &&& value <= old(self)@.balance_of(from)
                    &&& final(self)@ == old(self)@.transferred(from, to, value as nat)
                    &&& event == (Transfer { from: Some(from), to: Some(to), value })
                },
                Err(error) => {
                    &&& value > old(self)@.balance_of(from)
                    &&& error == LedgerError::InsufficientFunds
                    &&& final(self)@ == old(self)@
                },
            },
    {
        let from_balance = self.balance_of_or_zero(&from);
        if from_balance < value {
            return Err(LedgerError::InsufficientFunds);
        }
        let ghost before = balance_entries(self.balances);
        proof {
            lemma_transferred_wf(self@, from, to, value as nat);
            lemma_as_amounts(before, from, (from_balance - value) as u64);
        }
        balances_insert(&mut self.balances, from, from_balance - value);
        let to_balance = self.balance_of_or_zero(&to);
        let ghost debited = balance_entries(self.balances);
        proof {
            lemma_as_amounts(debited, to, (to_balance + value) as u64);
        }
        balances_insert(&mut self.balances, to, to_balance + value);
        proof {
            assert(self@.balances =~= old(self)@.transferred(from, to, value as nat).balances);
        }
        Ok(Transfer { from: Some(from), to: Some(to), value })
    }

    /// The balance entry of `owner`, or zero where there is none.
    fn balance_of_or_zero(&self, owner: &AccountId) -> (balance: u64)
        ensures
            balance == self@.balance_of(*owner),
    {
        match balances_get(&self.balances, owner) {
            Some(balance) => balance,
            None => 0,
        }
    }

    /// The allowance entry of (`owner`, `spender`), or zero where there is none.
    fn allowance_of_or_zero(&self, owner: &AccountId, spender: &AccountId) -> (allowance: u64)
        ensures
            allowance == self@.allowance(*owner, *spender),
    {
        match allowances_get(&self.allowances, owner, spender) {
            Some(allowance) => allowance,
            None => 0,
        }
    }

    /// Raises the supply by `amount` and credits it to `to`.
    ///
    /// Refused with `SupplyOverflow` when the supply would no longer fit in 64 bits.
    fn _mint_token(
        &mut self,
        to: AccountId,
        amount: u64,
    ) -> (outcome: Result<Transfer, LedgerError>)
        requires
            old(self)@.wf(),
            old(self)@.total_supply + amount <= u64::MAX ==> can_store(
                old(self)@.balances.dom(),
                to,
            ),
        ensures
            final(self)@.wf(),
            match outcome {
                Ok(event) => {
                    &&& old(self)@.total_supply + amount <= u64::MAX
                    &&& final(self)@ == old(self)@.minted(to, amount as nat)
                    &&& event == (Transfer { from: None, to: Some(to), value: amount })
                },
                Err(error) => {
                    &&& old(self)@.total_supply + amount > u64::MAX
                    &&& error == LedgerError::SupplyOverflow
                    &&& final(self)@ == old(self)@
                },
            },
    {
        let new_supply = match self.total_supply.checked_add(amount) {
            Some(sum) => sum,
            None => {
                return Err(LedgerError::SupplyOverflow);
            },
        };
        let to_balance = self.balance_of_or_zero(&to);
        proof {
            lemma_minted_wf(self@, to, amount as nat);
        }
        let new_balance = match to_balance.checked_add(amount) {
            Some(sum) => sum,
            None => {
                return Err(LedgerError::SupplyOverflow);
            },
        };
        proof {
            lemma_as_amounts(balance_entries(self.balances), to, new_balance);
        }
        self.total_supply = new_supply;
        balances_insert(&mut self.balances, to, new_balance);
        Ok(Transfer { from: None, to: Some(to), value: amount })
    }

    /// Lowers the supply by `amount` and debits it from `from`.
    ///
    /// Refused with `InsufficientSupply` when the supply is less than `amount`;
    /// otherwise with `InsufficientFunds` when `from` holds less than `amount`.
    fn _destroy_token(
        &mut self,
        from: AccountId,
        amount: u64,
    ) -> (outcome: Result<Transfer, LedgerError>)
        requires
            old(self)@.wf(),
            amount <= old(self)@.balance_of(from) ==> can_store(old(self)@.balances.dom(), from),
        ensures
            final(self)@.wf(),
            match outcome {
                Ok(event) => {
                    &&& amount <= old(self)@.balance_of(from)
                    &&& final(self)@ == old(self)@.burned(from, amount as nat)
                    &&& event == (Transfer { from: Some(from), to: None, value: amount })
                },
                Err(error) => {
                    &&& amount > old(self)@.balance_of(from)
                    &&& error == if amount > old(self)@.total_supply {
                        LedgerError::InsufficientSupply
                    } else {
                        LedgerError::InsufficientFunds
                    }
                    &&& final(self)@ == old(self)@
                },
            },
    {
        let from_balance = self.balance_of_or_zero(&from);
        proof {
            lemma_amounts_in_range(self@, from, from, from);
        }
        let new_supply = match self.total_supply.checked_sub(amount) {
            Some(rest) => rest,
            None => {
                return Err(LedgerError::InsufficientSupply);
            },
        };
        let new_balance = match from_balance.checked_sub(amount) {
            Some(rest) => rest,
            None => {
                return Err(LedgerError::InsufficientFunds);
            },
        };
        proof {
            lemma_burned_wf(self@, from, amount as nat);
            lemma_as_amounts(balance_entries(self.balances), from, new_balance);
        }
        self.total_supply = new_supply;
        balances_insert(&mut self.balances, from, new_balance);
        Ok(Transfer { from: Some(from), to: None, value: amount })
    }
}

} // verus!
