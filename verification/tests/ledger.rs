use erc20::{AccountId, Approval, DisplayInfo, Erc20, LedgerError, Transfer};

fn account(tag: u8) -> AccountId {
    AccountId::new([tag; 32])
}

fn alice() -> AccountId {
    account(1)
}

fn bob() -> AccountId {
    account(2)
}

fn carol() -> AccountId {
    account(3)
}

fn dave() -> AccountId {
    account(4)
}

fn gold() -> Erc20 {
    let (ledger, _) = Erc20::new("Gold".to_string(), "GLD".to_string(), 1000, 2, alice());
    ledger
}

#[test]
fn new_mints_initial_supply_to_controller() {
    let (ledger, minted) = Erc20::new("Gold".to_string(), "GLD".to_string(), 1000, 2, alice());
    assert_eq!(ledger.total_supply(), 1000);
    assert_eq!(ledger.balance_of(alice()), 1000);
    assert_eq!(ledger.balance_of(bob()), 0);
    assert_eq!(ledger.name(), "Gold");
    assert_eq!(ledger.symbol(), "GLD");
    assert_eq!(ledger.decimals(), 2);
    assert_eq!(ledger.owner(), alice());
    assert_eq!(minted, Transfer { from: None, to: Some(alice()), value: 1000 });
}

#[test]
fn new_with_zero_supply_still_notifies() {
    let (ledger, minted) = Erc20::new("Dust".to_string(), "DST".to_string(), 0, 18, bob());
    assert_eq!(ledger.total_supply(), 0);
    assert_eq!(ledger.balance_of(bob()), 0);
    assert_eq!(minted, Transfer { from: None, to: Some(bob()), value: 0 });
}

#[test]
fn new_takes_the_largest_supply() {
    let (ledger, minted) = Erc20::new("Max".to_string(), "MAX".to_string(), u64::MAX, 0, alice());
    assert_eq!(ledger.total_supply(), u64::MAX);
    assert_eq!(ledger.balance_of(alice()), u64::MAX);
    assert_eq!(minted.value, u64::MAX);
}

#[test]
fn default_ledger_is_empty_and_owned_by_the_zero_account() {
    let (ledger, minted) = Erc20::default();
    let zero = AccountId::new([0; 32]);
    assert_eq!(ledger.name(), "");
    assert_eq!(ledger.symbol(), "");
    assert_eq!(ledger.total_supply(), 0);
    assert_eq!(ledger.decimals(), 0);
    assert_eq!(ledger.owner(), zero);
    assert_eq!(ledger.balance_of(zero), 0);
    assert_eq!(minted, Transfer { from: None, to: Some(zero), value: 0 });
}

#[test]
fn query_info_is_a_snapshot() {
    let mut ledger = gold();
    let info = ledger.query_info();
    assert_eq!(
        info,
        DisplayInfo {
            name: "Gold".to_string(),
            symbol: "GLD".to_string(),
            total_supply: 1000,
            decimals: 2,
            owner: alice(),
        }
    );
    ledger.mint_token_by_owner(alice(), bob(), 5).unwrap();
    ledger.transfer_owner(alice(), carol()).unwrap();
    assert_eq!(info.total_supply, 1000);
    assert_eq!(info.owner, alice());
    let later = ledger.query_info();
    assert_eq!(later.total_supply, 1005);
    assert_eq!(later.owner, carol());
    assert_eq!(later.name, "Gold");
    assert_eq!(later.symbol, "GLD");
    assert_eq!(later.decimals, 2);
}

#[test]
fn into_info_accepts_and_changes_nothing() {
    let mut ledger = gold();
    assert!(ledger.into_info(77));
    assert_eq!(ledger.total_supply(), 1000);
    assert_eq!(ledger.balance_of(alice()), 1000);
    assert_eq!(ledger.owner(), alice());
}

#[test]
fn transfer_moves_value() {
    let mut ledger = gold();
    let moved = ledger.transfer(alice(), bob(), 400);
    assert_eq!(moved, Ok(Transfer { from: Some(alice()), to: Some(bob()), value: 400 }));
    assert_eq!(ledger.balance_of(alice()), 600);
    assert_eq!(ledger.balance_of(bob()), 400);
    assert_eq!(ledger.total_supply(), 1000);
}

#[test]
fn transfer_of_whole_balance_leaves_zero() {
    let mut ledger = gold();
    assert!(ledger.transfer(alice(), bob(), 1000).is_ok());
    assert_eq!(ledger.balance_of(alice()), 0);
    assert_eq!(ledger.balance_of(bob()), 1000);
}

#[test]
fn transfer_beyond_balance_is_refused_and_changes_nothing() {
    let mut ledger = gold();
    ledger.approve(alice(), carol(), 30);
    assert_eq!(ledger.transfer(alice(), bob(), 1001), Err(LedgerError::InsufficientFunds));
    assert_eq!(ledger.transfer(bob(), alice(), 1), Err(LedgerError::InsufficientFunds));
    assert_eq!(ledger.balance_of(alice()), 1000);
    assert_eq!(ledger.balance_of(bob()), 0);
    assert_eq!(ledger.total_supply(), 1000);
    assert_eq!(ledger.allowance(alice(), carol()), 30);
    assert_eq!(ledger.owner(), alice());
}

#[test]
fn transfer_to_self_keeps_balance_and_notifies() {
    let mut ledger = gold();
    let moved = ledger.transfer(alice(), alice(), 250);
    assert_eq!(moved, Ok(Transfer { from: Some(alice()), to: Some(alice()), value: 250 }));
    assert_eq!(ledger.balance_of(alice()), 1000);
    assert_eq!(ledger.total_supply(), 1000);
    assert_eq!(ledger.transfer(alice(), alice(), 1001), Err(LedgerError::InsufficientFunds));
}

#[test]
fn transfer_of_nothing_from_an_unknown_account_succeeds() {
    let mut ledger = gold();
    let moved = ledger.transfer(carol(), dave(), 0);
    assert_eq!(moved, Ok(Transfer { from: Some(carol()), to: Some(dave()), value: 0 }));
    assert_eq!(ledger.balance_of(carol()), 0);
    assert_eq!(ledger.balance_of(dave()), 0);
    assert_eq!(ledger.balance_of(alice()), 1000);
}

#[test]
fn approve_sets_and_overwrites_allowance() {
    let mut ledger = gold();
    assert_eq!(ledger.allowance(alice(), bob()), 0);
    let first = ledger.approve(alice(), bob(), 70);
    assert_eq!(first, Approval { owner: alice(), spender: bob(), value: 70 });
    assert_eq!(ledger.allowance(alice(), bob()), 70);
    let second = ledger.approve(alice(), bob(), 20);
    assert_eq!(second, Approval { owner: alice(), spender: bob(), value: 20 });
    assert_eq!(ledger.allowance(alice(), bob()), 20);
    ledger.approve(alice(), bob(), 0);
    assert_eq!(ledger.allowance(alice(), bob()), 0);
}

#[test]
fn approve_is_per_ordered_pair() {
    let mut ledger = gold();
    ledger.approve(alice(), bob(), 70);
    assert_eq!(ledger.allowance(bob(), alice()), 0);
    assert_eq!(ledger.allowance(alice(), carol()), 0);
    ledger.approve(bob(), alice(), 5);
    assert_eq!(ledger.allowance(alice(), bob()), 70);
    assert_eq!(ledger.allowance(bob(), alice()), 5);
    assert_eq!(ledger.balance_of(alice()), 1000);
    assert_eq!(ledger.total_supply(), 1000);
}

#[test]
fn approve_may_exceed_the_balance() {
    let mut ledger = gold();
    ledger.approve(bob(), carol(), u64::MAX);
    assert_eq!(ledger.allowance(bob(), carol()), u64::MAX);
}

#[test]
fn transfer_from_spends_the_allowance() {
    let mut ledger = gold();
    ledger.approve(alice(), carol(), 300);
    let moved = ledger.transfer_from(carol(), alice(), dave(), 300);
    assert_eq!(moved, Ok(Transfer { from: Some(alice()), to: Some(dave()), value: 300 }));
    assert_eq!(ledger.balance_of(alice()), 700);
    assert_eq!(ledger.balance_of(dave()), 300);
    assert_eq!(ledger.balance_of(carol()), 0);
    assert_eq!(ledger.allowance(alice(), carol()), 0);
    assert_eq!(ledger.total_supply(), 1000);
}

#[test]
fn transfer_from_after_two_transfers_leaves_the_scenario_balances() {
    let mut ledger = gold();
    ledger.transfer(alice(), bob(), 400).unwrap();
    ledger.approve(alice(), carol(), 300);
    ledger.transfer_from(carol(), alice(), dave(), 300).unwrap();
    assert_eq!(ledger.balance_of(alice()), 300);
    assert_eq!(ledger.balance_of(dave()), 300);
    assert_eq!(ledger.allowance(alice(), carol()), 0);
}

#[test]
fn transfer_from_lowers_the_allowance_by_the_amount() {
    let mut ledger = gold();
    ledger.approve(alice(), carol(), 300);
    ledger.transfer_from(carol(), alice(), bob(), 120).unwrap();
    assert_eq!(ledger.allowance(alice(), carol()), 180);
    assert_eq!(ledger.balance_of(alice()), 880);
    assert_eq!(ledger.balance_of(bob()), 120);
}

#[test]
fn transfer_from_without_allowance_is_refused() {
    let mut ledger = gold();
    ledger.approve(alice(), carol(), 300);
    ledger.transfer_from(carol(), alice(), dave(), 300).unwrap();
    let refused = ledger.transfer_from(carol(), alice(), dave(), 1);
    assert_eq!(refused, Err(LedgerError::InsufficientAllowance));
    assert_eq!(ledger.balance_of(alice()), 700);
    assert_eq!(ledger.balance_of(dave()), 300);
    assert_eq!(ledger.balance_of(carol()), 0);
    assert_eq!(ledger.allowance(alice(), carol()), 0);
}

#[test]
fn transfer_from_is_all_or_nothing() {
    let mut ledger = gold();
    ledger.approve(bob(), carol(), 50);
    ledger.transfer(alice(), bob(), 10).unwrap();
    let refused = ledger.transfer_from(carol(), bob(), dave(), 40);
    assert_eq!(refused, Err(LedgerError::InsufficientFunds));
    assert_eq!(ledger.allowance(bob(), carol()), 50);
    assert_eq!(ledger.balance_of(bob()), 10);
    assert_eq!(ledger.balance_of(dave()), 0);
    assert_eq!(ledger.balance_of(alice()), 990);
    assert_eq!(ledger.total_supply(), 1000);
}

#[test]
fn transfer_from_checks_the_allowance_before_the_balance() {
    let mut ledger = gold();
    ledger.approve(bob(), carol(), 5);
    let refused = ledger.transfer_from(carol(), bob(), dave(), 6);
    assert_eq!(refused, Err(LedgerError::InsufficientAllowance));
}

#[test]
fn transfer_from_uses_the_allowance_given_to_the_caller() {
    let mut ledger = gold();
    ledger.approve(alice(), carol(), 300);
    assert_eq!(
        ledger.transfer_from(bob(), alice(), dave(), 1),
        Err(LedgerError::InsufficientAllowance)
    );
    assert_eq!(
        ledger.transfer_from(alice(), carol(), dave(), 1),
        Err(LedgerError::InsufficientAllowance)
    );
    assert_eq!(ledger.allowance(alice(), carol()), 300);
}

#[test]
fn transfer_owner_passes_ownership() {
    let mut ledger = gold();
    assert_eq!(ledger.transfer_owner(alice(), bob()), Ok(()));
    assert_eq!(ledger.owner(), bob());
    assert_eq!(ledger.mint_token_by_owner(alice(), alice(), 1), Err(LedgerError::Unauthorized));
    assert!(ledger.mint_token_by_owner(bob(), alice(), 1).is_ok());
    assert_eq!(ledger.total_supply(), 1001);
}

#[test]
fn transfer_owner_by_another_is_refused() {
    let mut ledger = gold();
    assert_eq!(ledger.transfer_owner(bob(), bob()), Err(LedgerError::Unauthorized));
    assert_eq!(ledger.owner(), alice());
    assert_eq!(ledger.total_supply(), 1000);
    assert_eq!(ledger.balance_of(alice()), 1000);
}

#[test]
fn mint_by_owner_raises_supply_and_balance() {
    let mut ledger = gold();
    let minted = ledger.mint_token_by_owner(alice(), bob(), 50);
    assert_eq!(minted, Ok(Transfer { from: None, to: Some(bob()), value: 50 }));
    assert_eq!(ledger.total_supply(), 1050);
    assert_eq!(ledger.balance_of(bob()), 50);
    assert_eq!(ledger.balance_of(alice()), 1000);
}

#[test]
fn mint_by_another_is_refused() {
    let mut ledger = gold();
    ledger.mint_token_by_owner(alice(), bob(), 50).unwrap();
    let refused = ledger.mint_token_by_owner(bob(), bob(), 50);
    assert_eq!(refused, Err(LedgerError::Unauthorized));
    assert_eq!(ledger.total_supply(), 1050);
    assert_eq!(ledger.balance_of(bob()), 50);
}

#[test]
fn mint_beyond_the_width_is_refused() {
    let mut ledger = gold();
    let refused = ledger.mint_token_by_owner(alice(), bob(), u64::MAX - 999);
    assert_eq!(refused, Err(LedgerError::SupplyOverflow));
    assert_eq!(ledger.total_supply(), 1000);
    assert_eq!(ledger.balance_of(bob()), 0);
    let minted = ledger.mint_token_by_owner(alice(), bob(), u64::MAX - 1000);
    assert!(minted.is_ok());
    assert_eq!(ledger.total_supply(), u64::MAX);
    assert_eq!(ledger.balance_of(bob()), u64::MAX - 1000);
}

#[test]
fn unauthorized_comes_before_overflow() {
    let mut ledger = gold();
    let refused = ledger.mint_token_by_owner(bob(), bob(), u64::MAX);
    assert_eq!(refused, Err(LedgerError::Unauthorized));
}

#[test]
fn destroy_lowers_supply_and_balance() {
    let mut ledger = gold();
    ledger.transfer(alice(), bob(), 400).unwrap();
    let burned = ledger.destroy_token_by_owner(bob(), 150);
    assert_eq!(burned, Ok(Transfer { from: Some(bob()), to: None, value: 150 }));
    assert_eq!(ledger.total_supply(), 850);
    assert_eq!(ledger.balance_of(bob()), 250);
    assert_eq!(ledger.balance_of(alice()), 600);
}

#[test]
fn destroy_of_nothing_is_refused() {
    let mut ledger = gold();
    assert_eq!(ledger.destroy_token_by_owner(alice(), 0), Err(LedgerError::InvalidAmount));
    assert_eq!(ledger.total_supply(), 1000);
    assert_eq!(ledger.balance_of(alice()), 1000);
}

#[test]
fn destroy_beyond_the_supply_is_refused() {
    let mut ledger = gold();
    assert_eq!(ledger.destroy_token_by_owner(alice(), 1001), Err(LedgerError::InsufficientSupply));
    assert_eq!(ledger.total_supply(), 1000);
    assert_eq!(ledger.balance_of(alice()), 1000);
}

#[test]
fn destroy_beyond_the_balance_is_refused() {
    let mut ledger = gold();
    ledger.transfer(alice(), bob(), 400).unwrap();
    assert_eq!(ledger.destroy_token_by_owner(bob(), 401), Err(LedgerError::InsufficientFunds));
    assert_eq!(ledger.destroy_token_by_owner(carol(), 1), Err(LedgerError::InsufficientFunds));
    assert_eq!(ledger.total_supply(), 1000);
    assert_eq!(ledger.balance_of(bob()), 400);
    assert_eq!(ledger.balance_of(carol()), 0);
}

#[test]
fn destroy_of_the_whole_supply() {
    let mut ledger = gold();
    assert!(ledger.destroy_token_by_owner(alice(), 1000).is_ok());
    assert_eq!(ledger.total_supply(), 0);
    assert_eq!(ledger.balance_of(alice()), 0);
    assert_eq!(ledger.destroy_token_by_owner(alice(), 1), Err(LedgerError::InsufficientSupply));
}

#[test]
fn supply_stays_the_sum_of_balances() {
    let mut ledger = gold();
    let everyone = [alice(), bob(), carol(), dave()];
    let total = |ledger: &Erc20| -> u64 { everyone.iter().map(|a| ledger.balance_of(*a)).sum() };
    assert_eq!(total(&ledger), ledger.total_supply());
    ledger.transfer(alice(), bob(), 400).unwrap();
    assert_eq!(total(&ledger), ledger.total_supply());
    ledger.approve(alice(), carol(), 300);
    ledger.transfer_from(carol(), alice(), dave(), 300).unwrap();
    assert_eq!(total(&ledger), ledger.total_supply());
    ledger.mint_token_by_owner(alice(), carol(), 50).unwrap();
    assert_eq!(total(&ledger), 1050);
    assert_eq!(ledger.total_supply(), 1050);
    ledger.destroy_token_by_owner(dave(), 100).unwrap();
    assert_eq!(total(&ledger), 950);
    assert_eq!(ledger.total_supply(), 950);
    let _ = ledger.transfer(bob(), alice(), 401);
    let _ = ledger.transfer_from(carol(), alice(), dave(), 1);
    let _ = ledger.destroy_token_by_owner(bob(), 0);
    assert_eq!(total(&ledger), 950);
    assert_eq!(ledger.total_supply(), 950);
}

#[test]
fn a_small_ledger_has_room() {
    let mut ledger = gold();
    assert!(ledger.has_room());
    ledger.transfer(alice(), bob(), 1).unwrap();
    ledger.approve(alice(), bob(), 1);
    assert!(ledger.has_room());
}

#[test]
fn accounts_are_their_bytes() {
    let mut bytes = [0u8; 32];
    bytes[31] = 9;
    let one = AccountId::new(bytes);
    let same = AccountId::new(bytes);
    bytes[0] = 1;
    let other = AccountId::new(bytes);
    assert_eq!(one, same);
    assert_ne!(one, other);
    assert_eq!(one.to_bytes()[31], 9);
    assert_eq!(other.to_bytes(), bytes);
}

#[test]
fn accounts_that_differ_in_one_byte_hold_separate_balances() {
    let mut bytes = [7u8; 32];
    let first = AccountId::new(bytes);
    bytes[16] = 8;
    let second = AccountId::new(bytes);
    let (mut ledger, _) = Erc20::new("Gold".to_string(), "GLD".to_string(), 10, 0, first);
    ledger.transfer(first, second, 3).unwrap();
    assert_eq!(ledger.balance_of(first), 7);
    assert_eq!(ledger.balance_of(second), 3);
}

#[test]
fn transfer_from_back_to_the_source_spends_the_allowance_only() {
    let mut ledger = gold();
    ledger.approve(alice(), carol(), 300);
    let moved = ledger.transfer_from(carol(), alice(), alice(), 100);
    assert_eq!(moved, Ok(Transfer { from: Some(alice()), to: Some(alice()), value: 100 }));
    assert_eq!(ledger.balance_of(alice()), 1000);
    assert_eq!(ledger.allowance(alice(), carol()), 200);
    assert_eq!(ledger.total_supply(), 1000);
}

#[test]
fn an_account_may_spend_an_allowance_it_gave_itself() {
    let mut ledger = gold();
    assert_eq!(
        ledger.transfer_from(alice(), alice(), bob(), 1),
        Err(LedgerError::InsufficientAllowance)
    );
    ledger.approve(alice(), alice(), 10);
    assert!(ledger.transfer_from(alice(), alice(), bob(), 4).is_ok());
    assert_eq!(ledger.allowance(alice(), alice()), 6);
    assert_eq!(ledger.balance_of(bob()), 4);
    assert_eq!(ledger.balance_of(alice()), 996);
}

#[test]
fn transfer_of_nothing_changes_no_balance() {
    let mut ledger = gold();
    let moved = ledger.transfer(alice(), bob(), 0);
    assert_eq!(moved, Ok(Transfer { from: Some(alice()), to: Some(bob()), value: 0 }));
    assert_eq!(ledger.balance_of(alice()), 1000);
    assert_eq!(ledger.balance_of(bob()), 0);
    let spent = ledger.transfer_from(carol(), alice(), bob(), 0);
    assert_eq!(spent, Ok(Transfer { from: Some(alice()), to: Some(bob()), value: 0 }));
    assert_eq!(ledger.allowance(alice(), carol()), 0);
}

#[test]
fn mint_of_nothing_by_the_owner_succeeds() {
    let mut ledger = gold();
    let minted = ledger.mint_token_by_owner(alice(), bob(), 0);
    assert_eq!(minted, Ok(Transfer { from: None, to: Some(bob()), value: 0 }));
    assert_eq!(ledger.total_supply(), 1000);
    assert_eq!(ledger.balance_of(bob()), 0);
}

#[test]
fn anyone_may_destroy_what_another_holds() {
    let mut ledger = gold();
    ledger.transfer_owner(alice(), bob()).unwrap();
    let burned = ledger.destroy_token_by_owner(alice(), 1);
    assert_eq!(burned, Ok(Transfer { from: Some(alice()), to: None, value: 1 }));
    assert_eq!(ledger.total_supply(), 999);
    assert_eq!(ledger.balance_of(alice()), 999);
}
