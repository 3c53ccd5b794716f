//! The two tables of a ledger, kept in `ink_storage` hash maps.
//!
//! Everything in this module is trusted: the contracts below describe what
//! `ink_storage::collections::HashMap` does and are not proved here. The rest of
//! the crate is verified against them.

use vstd::prelude::*;
use ink_storage::collections::HashMap as StorageHashMap;
use crate::account::AccountId;
use crate::records::lists_each_once;

verus! {

/// Balances by account, held in an `ink_storage::collections::HashMap` that is
/// keyed by the account's bytes.
///
/// A table is only ever made by [`balances_new`], so its map lives in memory and is
/// not bound to a cell of contract storage: no operation on it reaches the
/// environment.
#[verifier::external_body]
pub struct BalanceTable {
    entries: StorageHashMap<[u8; 32], u64>,
}

/// Allowances by (owner, spender), held in an `ink_storage::collections::HashMap`
/// that is keyed by the bytes of the two accounts.
///
/// A table is only ever made by [`allowances_new`], so its map lives in memory and
/// is not bound to a cell of contract storage.
#[verifier::external_body]
pub struct AllowanceTable {
    entries: StorageHashMap<([u8; 32], [u8; 32]), u64>,
}

/// The key-value pairs that a balance table holds: `k` maps to `v` exactly when
/// `HashMap::get` on the key made of `k`'s bytes finds `v`.
pub uninterp spec fn balance_entries(table: BalanceTable) -> Map<AccountId, u64>;

/// The key-value pairs that an allowance table holds, keyed by (owner, spender).
pub uninterp spec fn allowance_entries(table: AllowanceTable) -> Map<(AccountId, AccountId), u64>;

/// Whether a map that counts its entries in a `u32` and holds `keys` can take a
/// value under `key`: either the key is present already, or the count can still
/// grow by one.
pub open spec fn can_store<K>(keys: Set<K>, key: K) -> bool {
    keys.contains(key) || keys.len() < u32::MAX
}

/// Calls `HashMap::new`. Claims that the new map holds no entry.
#[verifier::external_body]
pub(crate) fn balances_new() -> (table: BalanceTable)
    ensures
        (balance_entries(table) == Map::<AccountId, u64>::empty()),
{
    BalanceTable { entries: StorageHashMap::new() }
}

/// Calls `HashMap::len`. Claims that it returns the number of keys held.
#[verifier::external_body]
pub(crate) fn balances_len(table: &BalanceTable) -> (count: u32)
    ensures
        count == balance_entries(*table).dom().len(),
{
    table.entries.len()
}

/// Calls `HashMap::get`. Claims that it returns the value stored under the key, or
/// `None` when the key is absent, and leaves the entries as they are.
#[verifier::external_body]
pub(crate) fn balances_get(table: &BalanceTable, account: &AccountId) -> (found: Option<u64>)
    ensures
        found == if balance_entries(*table).dom().contains(*account) {
            Some(balance_entries(*table)[*account])
        } else {
            None
        },
{
    table.entries.get(&account.bytes).copied()
}

/// Calls `HashMap::insert`. Claims that afterwards the key maps to the new value
/// and every other key is as before. The map counts its entries in a `u32`, which
/// a new key must not overflow.
#[verifier::external_body]
pub(crate) fn balances_insert(table: &mut BalanceTable, account: AccountId, amount: u64)
    requires
        can_store(balance_entries(*old(table)).dom(), account),
    ensures
        balance_entries(*final(table)) == balance_entries(*old(table)).insert(account, amount),
{
    table.entries.insert(account.bytes, amount);
}

/// Calls `HashMap::iter` and collects the pairs it yields, each key as an account.
/// Claims that every entry is yielded exactly once, and no more entries than a
/// `u32` can count.
#[verifier::external_body]
pub(crate) fn balances_list(table: &BalanceTable) -> (list: Vec<(AccountId, u64)>)
    ensures
        lists_each_once(list@, balance_entries(*table)),
        list@.len() <= u32::MAX,
{
    table.entries.iter().map(|(key, amount)| (AccountId { bytes: *key }, *amount)).collect()
}

/// Calls `HashMap::new`. Claims that the new map holds no entry.
#[verifier::external_body]
pub(crate) fn allowances_new() -> (table: AllowanceTable)
    ensures
        (allowance_entries(table) == Map::<(AccountId, AccountId), u64>::empty()),
{
    AllowanceTable { entries: StorageHashMap::new() }
}

/// Calls `HashMap::len`. Claims that it returns the number of keys held.
#[verifier::external_body]
pub(crate) fn allowances_len(table: &AllowanceTable) -> (count: u32)
    ensures
        count == allowance_entries(*table).dom().len(),
{
    table.entries.len()
}

/// Calls `HashMap::get`. Claims that it returns the value stored under the pair, or
/// `None` when the pair is absent, and leaves the entries as they are.
#[verifier::external_body]
pub(crate) fn allowances_get(
    table: &AllowanceTable,
    owner: &AccountId,
    spender: &AccountId,
) -> (found: Option<u64>)
    ensures
        found == if allowance_entries(*table).dom().contains((*owner, *spender)) {
            Some(allowance_entries(*table)[(*owner, *spender)])
        } else {
            None
        },
{
    table.entries.get(&(owner.bytes, spender.bytes)).copied()
}

/// Calls `HashMap::insert`. Claims that afterwards the pair maps to the new value
/// and every other pair is as before. The map counts its entries in a `u32`, which
/// a new key must not overflow.
#[verifier::external_body]
pub(crate) fn allowances_insert(
    table: &mut AllowanceTable,
    owner: AccountId,
    spender: AccountId,
    amount: u64,
)
    requires
        can_store(allowance_entries(*old(table)).dom(), (owner, spender)),
    ensures
        allowance_entries(*final(table)) == allowance_entries(*old(table)).insert(
            (owner, spender),
            amount,
        ),
{
    table.entries.insert((owner.bytes, spender.bytes), amount);
}

/// Calls `HashMap::iter` and collects the pairs it yields, each key as a pair of
/// accounts. Claims that every entry is yielded exactly once, and no more entries
/// than a `u32` can count.
#[verifier::external_body]
pub(crate) fn allowances_list(table: &AllowanceTable) -> (list: Vec<((AccountId, AccountId), u64)>)
    ensures
        lists_each_once(list@, allowance_entries(*table)),
        list@.len() <= u32::MAX,
{
    table.entries.iter().map(
        |(key, amount)| ((AccountId { bytes: key.0 }, AccountId { bytes: key.1 }), *amount),
    ).collect()
}

} // verus!
