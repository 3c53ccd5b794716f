//! What holds of every ledger state, proved over the mathematical model.

use vstd::prelude::*;
use crate::account::AccountId;
use crate::events::LedgerError;
use crate::model::{LedgerState, Operation};
use crate::records::{
    distinct_keys, lemma_listed_distinct, lemma_listed_keys, listed, lists_key,
};
use crate::sums::{lemma_sum_bounds_one, lemma_sum_bounds_two, lemma_sum_insert, sum_values};

verus! {

/// In a well-formed ledger every balance, every allowance and the supply lie between
/// zero and the largest 64-bit number, and no balance exceeds the supply.
pub proof fn lemma_amounts_in_range(
    state: LedgerState,
    account: AccountId,
    owner: AccountId,
    spender: AccountId,
)
    requires
        state.wf(),
    ensures
        0 <= state.balance_of(account) <= state.total_supply <= u64::MAX,
        0 <= state.allowance(owner, spender) <= u64::MAX,
{
    lemma_sum_bounds_one(state.balances, account);
}

/// A freshly created ledger is well-formed whenever its initial supply fits in 64
/// bits: the supply is the controller's balance, and that is the only balance.
pub proof fn lemma_created_wf(
    name: Seq<char>,
    symbol: Seq<char>,
    initial_supply: nat,
    decimals: u8,
    controller: AccountId,
)
    requires
        initial_supply <= u64::MAX,
    ensures
        LedgerState::created(name, symbol, initial_supply, decimals, controller).wf(),
        LedgerState::created(name, symbol, initial_supply, decimals, controller).total_supply
            == initial_supply,
        LedgerState::created(name, symbol, initial_supply, decimals, controller).balance_of(
            controller,
        ) == initial_supply,
        forall|other: AccountId|
            other != controller ==> LedgerState::created(
                name,
                symbol,
                initial_supply,
                decimals,
                controller,
            ).balance_of(other) == 0,
{
    let empty = LedgerState::empty(name, symbol, decimals, controller);
    assert(empty.wf());
    lemma_minted_wf(empty, controller, initial_supply);
}

/// A transfer that the source can afford keeps the ledger well-formed and the supply
/// as it was; the credited balance cannot outgrow 64 bits.
pub proof fn lemma_transferred_wf(state: LedgerState, from: AccountId, to: AccountId, value: nat)
    requires
        state.wf(),
        value <= state.balance_of(from),
    ensures
        state.transferred(from, to, value).wf(),
        state.transferred(from, to, value).total_supply == state.total_supply,
        from != to ==> state.balance_of(to) + value <= u64::MAX,
{
    if from == to {
        lemma_sum_insert(state.balances, from, state.balance_of(from));
    } else {
        let debited = state.balances.insert(from, (state.balance_of(from) - value) as nat);
        lemma_sum_bounds_two(state.balances, from, to);
        lemma_sum_insert(state.balances, from, (state.balance_of(from) - value) as nat);
        lemma_sum_insert(debited, to, state.balance_of(to) + value);
    }
}

/// Setting an allowance that fits in 64 bits keeps the ledger well-formed, and
/// touches neither a balance nor the supply.
pub proof fn lemma_approved_wf(state: LedgerState, owner: AccountId, spender: AccountId, value: nat)
    requires
        state.wf(),
        value <= u64::MAX,
    ensures
        state.approved(owner, spender, value).wf(),
        state.approved(owner, spender, value).balances == state.balances,
        state.approved(owner, spender, value).total_supply == state.total_supply,
{
}

/// After `approve(owner, spender, value)` the allowance of that pair is exactly
/// `value`, whatever it was before, and every other allowance is untouched.
pub proof fn lemma_approve_then_allowance(
    state: LedgerState,
    owner: AccountId,
    spender: AccountId,
    value: u64,
)
    ensures
        state.refusal((Operation::Approve { caller: owner, spender, value })) is None,
        state.after((Operation::Approve { caller: owner, spender, value })).allowance(
            owner,
            spender,
        ) == value,
        forall|o: AccountId, s: AccountId|
            (o, s) != (owner, spender) ==> state.after(
                (Operation::Approve { caller: owner, spender, value }),
            ).allowance(o, s) == state.allowance(o, s),
{
}

/// A delegated transfer within both the allowance and the balance keeps the ledger
/// well-formed, lowers the allowance by exactly the amount and moves the balances as
/// a plain transfer does.
pub proof fn lemma_spent_wf(
    state: LedgerState,
    spender: AccountId,
    from: AccountId,
    to: AccountId,
    value: nat,
)
    requires
        state.wf(),
        value <= state.allowance(from, spender),
        value <= state.balance_of(from),
    ensures
        state.spent(spender, from, to, value).wf(),
        state.spent(spender, from, to, value).total_supply == state.total_supply,
        state.spent(spender, from, to, value).balances == state.transferred(
            from,
            to,
            value,
        ).balances,
        state.spent(spender, from, to, value).allowance(from, spender) == state.allowance(
            from,
            spender,
        ) - value,
{
    lemma_transferred_wf(state, from, to, value);
}

/// Passing ownership keeps the ledger well-formed and changes nothing but the owner.
pub proof fn lemma_owned_by_wf(state: LedgerState, to: AccountId)
    requires
        state.wf(),
    ensures
        state.owned_by(to).wf(),
        state.owned_by(to).owner == to,
        state.owned_by(to).balances == state.balances,
        state.owned_by(to).allowances == state.allowances,
        state.owned_by(to).total_supply == state.total_supply,
{
}

/// A mint that keeps the supply within 64 bits keeps the ledger well-formed: supply
/// and the credited balance grow by the same amount.
pub proof fn lemma_minted_wf(state: LedgerState, to: AccountId, value: nat)
    requires
        state.wf(),
        state.total_supply + value <= u64::MAX,
    ensures
        state.minted(to, value).wf(),
        state.minted(to, value).total_supply == state.total_supply + value,
        state.minted(to, value).balance_of(to) == state.balance_of(to) + value,
        state.balance_of(to) + value <= u64::MAX,
{
    lemma_sum_bounds_one(state.balances, to);
    lemma_sum_insert(state.balances, to, state.balance_of(to) + value);
}

/// A burn that the account can afford keeps the ledger well-formed: supply and the
/// debited balance shrink by the same amount, and the supply covers the amount.
pub proof fn lemma_burned_wf(state: LedgerState, from: AccountId, value: nat)
    requires
        state.wf(),
        value <= state.balance_of(from),
    ensures
        value <= state.total_supply,
        state.burned(from, value).wf(),
        state.burned(from, value).total_supply == state.total_supply - value,
        state.burned(from, value).balance_of(from) == state.balance_of(from) - value,
{
    lemma_sum_bounds_one(state.balances, from);
    lemma_sum_insert(state.balances, from, (state.balance_of(from) - value) as nat);
}

/// Tables with room for two more balance entries and one more allowance entry have
/// room for every operation.
pub proof fn lemma_room_for_every_operation(state: LedgerState, operation: Operation)
    requires
        state.wf(),
        state.has_room(),
    ensures
        state.has_room_for(operation),
{
}

/// No operation breaks the invariant: from a well-formed ledger every operation,
/// accepted or refused, leads to a well-formed ledger.
pub proof fn lemma_operation_keeps_wf(state: LedgerState, operation: Operation)
    requires
        state.wf(),
    ensures
        state.after(operation).wf(),
{
    if state.refusal(operation) is None {
        match operation {
            Operation::Transfer { caller, to, value } => {
                lemma_transferred_wf(state, caller, to, value as nat);
            },
            Operation::Approve { caller, spender, value } => {
                lemma_approved_wf(state, caller, spender, value as nat);
            },
            Operation::TransferFrom { caller, from, to, value } => {
                lemma_spent_wf(state, caller, from, to, value as nat);
            },
            Operation::TransferOwner { caller, to } => {
                lemma_owned_by_wf(state, to);
            },
            Operation::Mint { caller, to, value } => {
                lemma_minted_wf(state, to, value as nat);
            },
            Operation::Burn { from, value } => {
                lemma_burned_wf(state, from, value as nat);
            },
        }
    }
}

/// A refused operation changes nothing: not a balance, not an allowance, not the
/// supply, not the owner.
pub proof fn lemma_refused_changes_nothing(state: LedgerState, operation: Operation)
    requires
        state.refusal(operation) is Some,
    ensures
        state.after(operation) == state,
{
}

/// A transfer of more than the caller holds is refused for want of funds and leaves
/// the whole state as it was.
pub proof fn lemma_overdrawn_transfer_is_refused(
    state: LedgerState,
    caller: AccountId,
    to: AccountId,
    value: u64,
)
    requires
        value > state.balance_of(caller),
    ensures
        state.refusal((Operation::Transfer { caller, to, value })) == Some(
            LedgerError::InsufficientFunds,
        ),
        state.after((Operation::Transfer { caller, to, value })) == state,
{
}

/// A delegated transfer is all or nothing: where the allowance would do but the
/// source holds too little, it is refused for want of funds, and neither the
/// allowance nor any balance changes.
pub proof fn lemma_delegated_transfer_is_atomic(
    state: LedgerState,
    caller: AccountId,
    from: AccountId,
    to: AccountId,
    value: u64,
)
    requires
        value <= state.allowance(from, caller),
        value > state.balance_of(from),
    ensures
        state.refusal((Operation::TransferFrom { caller, from, to, value })) == Some(
            LedgerError::InsufficientFunds,
        ),
        state.after((Operation::TransferFrom { caller, from, to, value })) == state,
{
}

/// Whoever is not the owner can neither mint nor pass ownership on: both are
/// refused as unauthorized and change nothing.
pub proof fn lemma_only_the_owner_mints_and_hands_over(
    state: LedgerState,
    caller: AccountId,
    to: AccountId,
    value: u64,
)
    requires
        caller != state.owner,
    ensures
        state.refusal((Operation::Mint { caller, to, value })) == Some(LedgerError::Unauthorized),
        state.after((Operation::Mint { caller, to, value })) == state,
        state.refusal((Operation::TransferOwner { caller, to })) == Some(LedgerError::Unauthorized),
        state.after((Operation::TransferOwner { caller, to })) == state,
{
}

/// Name, symbol and decimals are fixed at creation: no operation changes them.
pub proof fn lemma_description_is_fixed(state: LedgerState, operation: Operation)
    ensures
        state.after(operation).name == state.name,
        state.after(operation).symbol == state.symbol,
        state.after(operation).decimals == state.decimals,
{
}

/// The owner changes in one way only: the owner hands the ledger over, and the new
/// owner is the account that was named.
pub proof fn lemma_owner_changes_by_handover_only(state: LedgerState, operation: Operation)
    ensures
        state.after(operation).owner != state.owner ==> {
            &&& operation matches Operation::TransferOwner { caller, to }
            &&& caller == state.owner
            &&& state.after(operation).owner == to
        },
{
}

/// Only the owner's mint raises the supply and only a burn lowers it: every other
/// operation, and every mint that does not come from the owner, leaves the supply as
/// it was.
pub proof fn lemma_supply_changes_by_mint_and_burn_only(state: LedgerState, operation: Operation)
    requires
        state.wf(),
    ensures
        state.after(operation).total_supply != state.total_supply ==> {
            ||| operation matches Operation::Mint { caller, to, value } && caller == state.owner
            ||| operation is Burn
        },
{
    lemma_operation_keeps_wf(state, operation);
    if state.refusal(operation) is None {
        match operation {
            Operation::Transfer { caller, to, value } => {
                lemma_transferred_wf(state, caller, to, value as nat);
            },
            Operation::TransferFrom { caller, from, to, value } => {
                lemma_spent_wf(state, caller, from, to, value as nat);
            },
            _ => {},
        }
    }
}

/// Every state that a ledger can reach is well-formed: whatever operations are
/// asked of a freshly created ledger, in whatever order and by whatever callers,
/// the invariant holds of the state that they leave behind.
pub proof fn lemma_reachable_wf(
    name: Seq<char>,
    symbol: Seq<char>,
    initial_supply: u64,
    decimals: u8,
    controller: AccountId,
    operations: Seq<Operation>,
)
    ensures
        LedgerState::created(name, symbol, initial_supply as nat, decimals, controller).after_all(
            operations,
        ).wf(),
    decreases operations.len(),
{
    let start = LedgerState::created(name, symbol, initial_supply as nat, decimals, controller);
    if operations.len() == 0 {
        lemma_created_wf(name, symbol, initial_supply as nat, decimals, controller);
    } else {
        let earlier = operations.drop_last();
        lemma_reachable_wf(name, symbol, initial_supply, decimals, controller, earlier);
        lemma_operation_keeps_wf(start.after_all(earlier), operations.last());
    }
}

/// In every state that a ledger can reach, the supply is the sum of all balances,
/// and the supply, every balance and every allowance lie between zero and the
/// largest 64-bit number.
pub proof fn lemma_reachable_supply_is_sum(
    name: Seq<char>,
    symbol: Seq<char>,
    initial_supply: u64,
    decimals: u8,
    controller: AccountId,
    operations: Seq<Operation>,
)
    ensures
        ({
            let reached = LedgerState::created(
                name,
                symbol,
                initial_supply as nat,
                decimals,
                controller,
            ).after_all(operations);
            &&& reached.total_supply == sum_values(reached.balances)
            &&& 0 <= reached.total_supply <= u64::MAX
            &&& forall|account: AccountId| 0 <= #[trigger] reached.balance_of(account) <= u64::MAX
            &&& forall|owner: AccountId, spender: AccountId|
                0 <= #[trigger] reached.allowance(owner, spender) <= u64::MAX
        }),
{
    let reached = LedgerState::created(
        name,
        symbol,
        initial_supply as nat,
        decimals,
        controller,
    ).after_all(operations);
    lemma_reachable_wf(name, symbol, initial_supply, decimals, controller, operations);
    assert forall|account: AccountId| 0 <= #[trigger] reached.balance_of(account)
        <= u64::MAX by {
        lemma_amounts_in_range(reached, account, account, account);
    }
}

/// Lists that can be read back give a well-formed ledger.
pub proof fn lemma_restored_wf(
    name: Seq<char>,
    symbol: Seq<char>,
    decimals: u8,
    owner: AccountId,
    balances: Seq<(AccountId, u64)>,
    allowances: Seq<((AccountId, AccountId), u64)>,
)
    requires
        LedgerState::restorable(balances, allowances),
    ensures
        LedgerState::restored(name, symbol, decimals, owner, balances, allowances).wf(),
{
    lemma_listed_keys(balances);
    lemma_listed_keys(allowances);
    lemma_listed_distinct(allowances);
    assert forall|pair: (AccountId, AccountId)|
        listed(allowances).dom().contains(pair) implies #[trigger] listed(allowances)[pair]
        <= u64::MAX by {
        assert(lists_key(allowances, pair));
        let i = choose|i: int| 0 <= i < allowances.len() && (#[trigger] allowances[i]).0 == pair;
        assert(listed(allowances).contains_pair(allowances[i].0, allowances[i].1 as nat));
    }
}

/// A well-formed ledger that is written out as lists of its entries, each entry
/// once, is read back as the same ledger.
pub proof fn lemma_written_out_reads_back(
    state: LedgerState,
    balances: Seq<(AccountId, u64)>,
    allowances: Seq<((AccountId, AccountId), u64)>,
)
    requires
        state.wf(),
        distinct_keys(balances),
        distinct_keys(allowances),
        listed(balances) == state.balances,
        listed(allowances) == state.allowances,
        balances.len() <= u32::MAX,
        allowances.len() <= u32::MAX,
    ensures
        LedgerState::restorable(balances, allowances),
        LedgerState::restored(
            state.name,
            state.symbol,
            state.decimals,
            state.owner,
            balances,
            allowances,
        ) == state,
{
}

} // verus!
