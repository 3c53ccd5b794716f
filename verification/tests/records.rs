use erc20::{AccountId, Erc20};

fn id(tag: u8) -> AccountId {
    AccountId::new([tag; 32])
}

fn sorted_balances(ledger: &Erc20) -> Vec<([u8; 32], u64)> {
    let mut list: Vec<([u8; 32], u64)> =
        ledger.balances().iter().map(|(account, amount)| (account.to_bytes(), *amount)).collect();
    list.sort();
    list
}

fn sorted_allowances(ledger: &Erc20) -> Vec<([u8; 32], [u8; 32], u64)> {
    let mut list: Vec<([u8; 32], [u8; 32], u64)> = ledger
        .allowances()
        .iter()
        .map(|((owner, spender), amount)| (owner.to_bytes(), spender.to_bytes(), *amount))
        .collect();
    list.sort();
    list
}

#[test]
fn a_new_ledger_lists_the_controller_only() {
    let (ledger, _) = Erc20::new("Gold".to_string(), "GLD".to_string(), 1000, 2, id(1));
    assert_eq!(sorted_balances(&ledger), vec![([1u8; 32], 1000)]);
    assert_eq!(sorted_allowances(&ledger), vec![]);
}

#[test]
fn balances_lists_every_entry_once() {
    let (mut ledger, _) = Erc20::new("Gold".to_string(), "GLD".to_string(), 1000, 2, id(1));
    ledger.transfer(id(1), id(2), 400).unwrap();
    ledger.transfer(id(2), id(3), 100).unwrap();
    ledger.transfer(id(2), id(1), 50).unwrap();
    assert_eq!(
        sorted_balances(&ledger),
        vec![([1u8; 32], 650), ([2u8; 32], 250), ([3u8; 32], 100)]
    );
}

#[test]
fn a_written_zero_is_an_entry() {
    let (mut ledger, _) = Erc20::new("Gold".to_string(), "GLD".to_string(), 10, 0, id(1));
    ledger.transfer(id(1), id(2), 10).unwrap();
    ledger.transfer(id(3), id(4), 0).unwrap();
    let _ = ledger.balance_of(id(5));
    assert_eq!(
        sorted_balances(&ledger),
        vec![([1u8; 32], 0), ([2u8; 32], 10), ([3u8; 32], 0), ([4u8; 32], 0)]
    );
}

#[test]
fn a_refused_operation_adds_no_entry() {
    let (mut ledger, _) = Erc20::new("Gold".to_string(), "GLD".to_string(), 10, 0, id(1));
    assert!(ledger.transfer(id(2), id(3), 1).is_err());
    assert!(ledger.transfer_from(id(2), id(1), id(3), 1).is_err());
    assert!(ledger.mint_token_by_owner(id(2), id(3), 1).is_err());
    assert!(ledger.destroy_token_by_owner(id(3), 1).is_err());
    assert_eq!(sorted_balances(&ledger), vec![([1u8; 32], 10)]);
    assert_eq!(sorted_allowances(&ledger), vec![]);
}

#[test]
fn allowances_lists_every_pair_once() {
    let (mut ledger, _) = Erc20::new("Gold".to_string(), "GLD".to_string(), 1000, 2, id(1));
    ledger.approve(id(1), id(2), 70);
    ledger.approve(id(2), id(1), 5);
    ledger.approve(id(1), id(2), 20);
    ledger.approve(id(1), id(3), 300);
    ledger.transfer_from(id(3), id(1), id(4), 300).unwrap();
    assert_eq!(
        sorted_allowances(&ledger),
        vec![([1u8; 32], [2u8; 32], 20), ([1u8; 32], [3u8; 32], 0), ([2u8; 32], [1u8; 32], 5)]
    );
}

#[test]
fn restore_sums_the_balances() {
    let balances = vec![(id(1), 5), (id(2), 7), (id(3), 0)];
    let allowances = vec![((id(1), id(2)), 9)];
    let ledger =
        Erc20::restore("Gold".to_string(), "GLD".to_string(), 2, id(2), &balances, &allowances)
            .unwrap();
    assert_eq!(ledger.total_supply(), 12);
    assert_eq!(ledger.balance_of(id(1)), 5);
    assert_eq!(ledger.balance_of(id(2)), 7);
    assert_eq!(ledger.balance_of(id(3)), 0);
    assert_eq!(ledger.balance_of(id(4)), 0);
    assert_eq!(ledger.allowance(id(1), id(2)), 9);
    assert_eq!(ledger.allowance(id(2), id(1)), 0);
    assert_eq!(ledger.name(), "Gold");
    assert_eq!(ledger.symbol(), "GLD");
    assert_eq!(ledger.decimals(), 2);
    assert_eq!(ledger.owner(), id(2));
}

#[test]
fn restore_of_empty_lists_is_an_empty_ledger() {
    let ledger = Erc20::restore(String::new(), String::new(), 0, id(0), &vec![], &vec![]).unwrap();
    assert_eq!(ledger.total_supply(), 0);
    assert_eq!(sorted_balances(&ledger), vec![]);
    assert_eq!(sorted_allowances(&ledger), vec![]);
}

#[test]
fn restore_takes_a_supply_that_just_fits() {
    let balances = vec![(id(1), u64::MAX - 1), (id(2), 1)];
    let restored = Erc20::restore(String::new(), String::new(), 0, id(1), &balances, &vec![]);
    let ledger = restored.unwrap();
    assert_eq!(ledger.total_supply(), u64::MAX);
}

#[test]
fn restore_refuses_a_supply_beyond_the_width() {
    let balances = vec![(id(1), u64::MAX), (id(2), 1)];
    assert!(Erc20::restore(String::new(), String::new(), 0, id(1), &balances, &vec![]).is_none());
    let balances = vec![(id(1), 1), (id(2), 0), (id(3), u64::MAX)];
    assert!(Erc20::restore(String::new(), String::new(), 0, id(1), &balances, &vec![]).is_none());
}

#[test]
fn restore_refuses_a_repeated_account() {
    let balances = vec![(id(1), 5), (id(2), 7), (id(1), 5)];
    assert!(Erc20::restore(String::new(), String::new(), 0, id(1), &balances, &vec![]).is_none());
}

#[test]
fn restore_refuses_a_repeated_pair() {
    let balances = vec![(id(1), 5)];
    let allowances = vec![((id(1), id(2)), 1), ((id(2), id(1)), 1), ((id(1), id(2)), 1)];
    let restored = Erc20::restore(String::new(), String::new(), 0, id(1), &balances, &allowances);
    assert!(restored.is_none());
    let allowances = vec![((id(1), id(2)), 1), ((id(2), id(1)), 1)];
    let restored = Erc20::restore(String::new(), String::new(), 0, id(1), &balances, &allowances);
    assert!(restored.is_some());
}

#[test]
fn a_ledger_written_out_is_read_back_the_same() {
    let (mut ledger, _) = Erc20::new("Gold".to_string(), "GLD".to_string(), 1000, 2, id(1));
    ledger.transfer(id(1), id(2), 400).unwrap();
    ledger.approve(id(1), id(3), 300);
    ledger.transfer_from(id(3), id(1), id(4), 120).unwrap();
    ledger.mint_token_by_owner(id(1), id(2), 50).unwrap();
    ledger.transfer_owner(id(1), id(4)).unwrap();
    let mut copy = Erc20::restore(
        ledger.name(),
        ledger.symbol(),
        ledger.decimals(),
        ledger.owner(),
        &ledger.balances(),
        &ledger.allowances(),
    )
    .unwrap();
    assert_eq!(copy.total_supply(), 1050);
    assert_eq!(copy.query_info(), ledger.query_info());
    assert_eq!(sorted_balances(&copy), sorted_balances(&ledger));
    assert_eq!(sorted_allowances(&copy), sorted_allowances(&ledger));
    assert_eq!(copy.balance_of(id(1)), 480);
    assert_eq!(copy.allowance(id(1), id(3)), 180);
    assert!(copy.mint_token_by_owner(id(4), id(1), 1).is_ok());
    assert_eq!(copy.total_supply(), 1051);
    assert_eq!(ledger.total_supply(), 1050);
}
