use smartvault::sum::sum_entries;
use smartvault::table::Table;
use smartvault::user_vault::VaultState;
use smartvault::{Address, UserVault, U256};

fn addr(n: u8) -> Address {
    Address::from_bytes([n; 20])
}

fn n(x: u64) -> U256 {
    U256::from_u64(x)
}

fn blank_state() -> VaultState {
    VaultState {
        owner: addr(9),
        asset: addr(1),
        factory: addr(2),
        total_assets: n(0),
        total_supply: n(0),
        balances: Vec::new(),
        allowances: Vec::new(),
        username_hash: [1u8; 32],
        bio_hash: [2u8; 32],
        created_at: n(77),
        paused: false,
        vault_name_hash: [3u8; 32],
        vault_symbol_hash: [4u8; 32],
        vault_decimals: 6,
        username_limit: n(20),
        bio_limit: n(30),
        initialized: true,
        protocol_allocations: Vec::new(),
        protocol_addresses: Vec::new(),
    }
}

#[test]
fn table_binds_the_last_value_written() {
    let mut table: Table<Address, U256> = Table::new();
    assert!(!table.contains(&addr(1)));
    assert_eq!(table.get(&addr(1)), None);
    assert_eq!(table.amount(&addr(1)), n(0));
    table.insert(addr(1), n(5));
    table.insert(addr(2), n(6));
    table.insert(addr(1), n(7));
    assert!(table.contains(&addr(1)));
    assert_eq!(table.get(&addr(1)), Some(&n(7)));
    assert_eq!(table.amount(&addr(2)), n(6));
    assert_eq!(table.entries(), vec![(addr(1), n(7)), (addr(2), n(6))]);
}

#[test]
fn table_from_entries_refuses_a_key_listed_twice() {
    let listed = vec![(String::from("aave"), n(1)), (String::from("pool"), n(2))];
    let table = Table::from_entries(&listed).unwrap();
    assert_eq!(table.amount(&String::from("pool")), n(2));
    assert_eq!(table.amount(&String::from("none")), n(0));
    assert_eq!(table.entries(), listed);
    let twice = vec![(addr(1), n(1)), (addr(2), n(2)), (addr(1), n(3))];
    assert!(Table::from_entries(&twice).is_none());
    let pairs = vec![((addr(1), addr(2)), n(1)), ((addr(2), addr(1)), n(2))];
    assert!(Table::from_entries(&pairs).is_some());
}

#[test]
fn entries_add_up() {
    let none: Vec<(Address, U256)> = Vec::new();
    assert_eq!(sum_entries(&none), Some(n(0)));
    assert_eq!(sum_entries(&vec![(addr(1), n(5)), (addr(2), n(6))]), Some(n(11)));
    assert_eq!(sum_entries(&vec![(addr(1), U256::max_value()), (addr(2), n(1))]), None);
}

#[test]
fn vault_state_round_trips() {
    let mut vault = UserVault::new();
    vault
        .initialize(
            addr(9),
            addr(1),
            addr(2),
            String::from("alice"),
            String::from("bio"),
            String::from("Name"),
            String::from("SYM"),
            6,
            n(20),
            n(30),
            1234,
        )
        .unwrap();
    vault.deposit(addr(5), n(1000)).unwrap();
    vault.transfer(addr(5), addr(6), n(250)).unwrap();
    vault.approve(addr(5), addr(7), n(40)).unwrap();
    vault.set_protocol_allocation(addr(9), String::from("aave"), n(300)).unwrap();
    vault.pause(addr(9)).unwrap();
    let state = vault.state();
    assert_eq!(state.total_supply, n(1000));
    assert_eq!(state.balances, vec![(addr(5), n(750)), (addr(6), n(250))]);
    assert_eq!(state.allowances, vec![((addr(5), addr(7)), n(40))]);
    assert_eq!(state.protocol_allocations, vec![(String::from("aave"), n(300))]);
    assert_eq!(state.protocol_addresses.len(), 4);
    assert!(state.paused);
    let mut again = UserVault::restore(state).unwrap();
    assert_eq!(again.balance_of(addr(5)), Ok(n(750)));
    assert_eq!(again.balance_of(addr(6)), Ok(n(250)));
    assert_eq!(again.allowance(addr(5), addr(7)), Ok(n(40)));
    assert_eq!(again.get_protocol_allocation(String::from("aave")), Ok(n(300)));
    assert_eq!(again.get_vault_info(), vault.get_vault_info());
    assert!(again.is_paused());
    assert!(again.is_initialized());
    again.unpause(addr(9)).unwrap();
    assert_eq!(again.withdraw(addr(6), n(250)), Ok(n(250)));
    assert_eq!(again.total_supply(), Ok(n(750)));
}

#[test]
fn restore_refuses_what_is_not_a_vault() {
    assert!(UserVault::restore(blank_state()).is_some());
    let mut short = blank_state();
    short.total_supply = n(10);
    short.balances = vec![(addr(5), n(4)), (addr(6), n(5))];
    assert!(UserVault::restore(short).is_none());
    let mut exact = blank_state();
    exact.total_supply = n(9);
    exact.total_assets = n(3);
    exact.balances = vec![(addr(5), n(4)), (addr(6), n(5))];
    let vault = UserVault::restore(exact).unwrap();
    assert_eq!(vault.convert_to_shares(n(2)), Ok(n(6)));
    assert_eq!(vault.convert_to_assets(n(7)), Ok(n(2)));
    let mut twice = blank_state();
    twice.total_supply = n(9);
    twice.balances = vec![(addr(5), n(4)), (addr(5), n(5))];
    assert!(UserVault::restore(twice).is_none());
    let mut overflowing = blank_state();
    overflowing.total_supply = n(0);
    overflowing.balances = vec![(addr(5), U256::max_value()), (addr(6), n(1))];
    assert!(UserVault::restore(overflowing).is_none());
    let mut doubled = blank_state();
    doubled.allowances = vec![((addr(5), addr(6)), n(1)), ((addr(5), addr(6)), n(2))];
    assert!(UserVault::restore(doubled).is_none());
    let mut earmarked = blank_state();
    earmarked.total_assets = n(5);
    earmarked.protocol_allocations = vec![(String::from("aave"), n(5)), (String::from("pool"), n(6))];
    assert!(UserVault::restore(earmarked).is_none());
    let mut covered = blank_state();
    covered.total_assets = n(6);
    covered.protocol_allocations = vec![(String::from("aave"), n(5)), (String::from("pool"), n(6))];
    assert!(UserVault::restore(covered).is_some());
    let mut venues = blank_state();
    venues.protocol_addresses =
        vec![(String::from("aave"), addr(3)), (String::from("aave"), addr(4))];
    assert!(UserVault::restore(venues).is_none());
}

#[test]
fn proportional_conversion_in_a_restored_vault() {
    let mut state = blank_state();
    state.total_assets = n(2000);
    state.total_supply = n(1000);
    state.balances = vec![(addr(5), n(1000))];
    state.protocol_addresses = vec![(String::from("aave"), addr(3))];
    let mut vault = UserVault::restore(state).unwrap();
    assert_eq!(vault.convert_to_shares(n(500)), Ok(n(250)));
    assert_eq!(vault.convert_to_assets(n(250)), Ok(n(500)));
    assert_eq!(vault.max_withdraw(addr(5)), Ok(n(2000)));
    assert_eq!(vault.deposit(addr(6), n(501)), Ok(n(250)));
    assert_eq!(vault.total_assets(), Ok(n(2501)));
    assert_eq!(vault.total_supply(), Ok(n(1250)));
    assert_eq!(vault.withdraw(addr(6), n(500)), Ok(n(249)));
    assert_eq!(vault.redeem(n(1), addr(6), addr(6)), Ok(n(1)));
    assert_eq!(vault.mint(n(10), addr(6)), Ok(n(20)));
    assert_eq!(vault.deploy_to_aave(addr(9), n(100)), Ok(()));
    assert_eq!(vault.get_protocol_allocation(String::from("aave")), Ok(n(100)));
    assert_eq!(vault.get_protocol_address(String::from("aave")), Ok(addr(3)));
    assert_eq!(vault.harvest_from_protocol(addr(9), String::from("aave")), Ok(n(0)));
    assert_eq!(
        vault.deploy_to_compound(addr(9), n(100)),
        Err(smartvault::Failure::CompoundNotSet)
    );
}

#[test]
fn a_withdrawal_cannot_uncover_an_allocation() {
    let mut state = blank_state();
    state.total_assets = n(2000);
    state.total_supply = n(1000);
    state.balances = vec![(addr(5), n(1000))];
    let mut vault = UserVault::restore(state).unwrap();
    assert_eq!(vault.set_protocol_allocation(addr(9), String::from("aave"), n(2000)), Ok(()));
    assert_eq!(vault.withdraw(addr(5), n(1000)), Err(smartvault::Failure::AssetsAllocated));
    assert_eq!(vault.redeem(n(1), addr(5), addr(5)), Err(smartvault::Failure::AssetsAllocated));
    assert_eq!(vault.total_assets(), Ok(n(2000)));
    assert_eq!(vault.balance_of(addr(5)), Ok(n(1000)));
    assert_eq!(vault.get_protocol_allocation(String::from("aave")), Ok(n(2000)));
    assert_eq!(vault.set_protocol_allocation(addr(9), String::from("aave"), n(1000)), Ok(()));
    assert_eq!(vault.withdraw(addr(5), n(1000)), Ok(n(500)));
    assert_eq!(vault.total_assets(), Ok(n(1000)));
    assert_eq!(vault.get_protocol_allocation(String::from("aave")), Ok(n(1000)));
}

#[test]
fn table_bounds_all_its_amounts() {
    let mut table: Table<Address, U256> = Table::new();
    assert!(table.all_at_most(&n(0)));
    table.insert(addr(1), n(5));
    table.insert(addr(2), n(9));
    assert!(table.all_at_most(&n(9)));
    assert!(!table.all_at_most(&n(8)));
    table.insert(addr(2), n(3));
    assert!(table.all_at_most(&n(5)));
    assert!(!table.all_at_most(&n(4)));
}
