use smartvault::user_vault::{quote_assets, quote_shares};
use smartvault::{Address, Erc20, Erc20Error, Erc20Params, ErrorKind, Failure, UserVault};
use smartvault::{VaultFactory, U256};

struct VaultShare;

impl Erc20Params for VaultShare {
    const NAME: &'static str = "Vault Shares";
    const SYMBOL: &'static str = "VS";
    const DECIMALS: u8 = 18;
}

fn mock_usdc() -> Address {
    Address::from_bytes([1u8; 20])
}

fn mock_aave_pool() -> Address {
    Address::from_bytes([2u8; 20])
}

fn mock_a_token() -> Address {
    Address::from_bytes([3u8; 20])
}

fn mock_c_token() -> Address {
    Address::from_bytes([4u8; 20])
}

fn mock_user() -> Address {
    Address::from_bytes([5u8; 20])
}

fn mock_admin() -> Address {
    Address::from_bytes([6u8; 20])
}

fn n(x: u64) -> U256 {
    U256::from_u64(x)
}

fn user_vault() -> UserVault {
    let mut vault = UserVault::new();
    vault
        .initialize(
            mock_user(),
            mock_usdc(),
            mock_admin(),
            String::from("user"),
            String::from("bio"),
            String::from("Vault"),
            String::from("V"),
            6,
            n(20),
            n(30),
            42,
        )
        .unwrap();
    vault
}

#[test]
fn test_vault_factory_creation() {
    let factory = VaultFactory::new();
    assert_eq!(factory.get_total_vaults(), Ok(n(0)));
    assert!(true);
}

#[test]
fn test_user_vault_creation() {
    let vault = UserVault::new();
    assert_eq!(vault.total_supply(), Ok(n(0)));
    assert!(!vault.is_initialized());
    assert!(true);
}

#[test]
fn test_strategy_creation() {
    let mut vault = user_vault();
    vault.deposit(mock_user(), n(100)).unwrap();
    assert_eq!(vault.set_protocol_allocation(mock_user(), String::from("aave"), n(60)), Ok(()));
    assert_eq!(vault.get_protocol_allocation(String::from("aave")), Ok(n(60)));
    assert!(true);
}

#[test]
fn test_erc4626_functions_exist() {
    let mut vault = user_vault();
    assert_eq!(vault.asset(), Ok(mock_usdc()));
    assert_eq!(vault.total_assets(), Ok(n(0)));
    assert_eq!(vault.convert_to_shares(n(5)), Ok(n(5)));
    assert_eq!(vault.convert_to_assets(n(5)), Ok(n(0)));
    assert_eq!(vault.max_deposit(mock_user()), Ok(U256::max_value()));
    assert_eq!(vault.max_mint(mock_user()), Ok(U256::max_value()));
    assert_eq!(vault.max_withdraw(mock_user()), Ok(n(0)));
    assert_eq!(vault.max_redeem(mock_user()), Ok(n(0)));
    assert_eq!(vault.deposit(mock_user(), n(10)), Ok(n(10)));
    assert_eq!(vault.mint(n(10), mock_user()), Ok(n(10)));
    assert_eq!(vault.withdraw(mock_user(), n(5)), Ok(n(5)));
    assert_eq!(vault.redeem(n(5), mock_user(), mock_user()), Ok(n(5)));
    assert!(true);
}

#[test]
fn test_erc20_functions_exist() {
    let mut vault = user_vault();
    vault.deposit(mock_user(), n(10)).unwrap();
    assert_eq!(vault.name(), Ok(String::from("Vault Shares")));
    assert_eq!(vault.symbol(), Ok(String::from("VS")));
    assert_eq!(vault.decimals(), Ok(6));
    assert_eq!(vault.total_supply(), Ok(n(10)));
    assert_eq!(vault.balance_of(mock_user()), Ok(n(10)));
    assert_eq!(vault.transfer(mock_user(), mock_admin(), n(1)), Ok(true));
    assert_eq!(vault.approve(mock_user(), mock_admin(), n(2)), Ok(true));
    assert_eq!(vault.allowance(mock_user(), mock_admin()), Ok(n(2)));
    assert_eq!(vault.transfer_from(mock_admin(), mock_user(), mock_admin(), n(2)), Ok(true));
    let mut token: Erc20<VaultShare> = Erc20::new();
    assert_eq!(token.mint(mock_user(), n(3)), Ok(()));
    assert_eq!(token.transfer(mock_user(), mock_admin(), n(3)), Ok(true));
    assert_eq!(Erc20::<VaultShare>::decimals(), Ok(18));
    assert!(true);
}

#[test]
fn test_strategy_functions_exist() {
    let mut vault = user_vault();
    vault.deposit(mock_user(), n(100)).unwrap();
    assert_eq!(vault.deploy_to_aave(mock_user(), n(10)), Err(Failure::AaveNotSet));
    assert_eq!(vault.deploy_to_compound(mock_user(), n(10)), Err(Failure::CompoundNotSet));
    assert_eq!(
        vault.harvest_from_protocol(mock_user(), String::from("aave")),
        Err(Failure::ProtocolNotSet)
    );
    assert_eq!(vault.get_protocol_address(String::from("aave")), Ok(Address::zero()));
    assert!(true);
}

#[test]
fn test_vault_factory_functions_exist() {
    let mut factory = VaultFactory::new();
    factory.init(mock_admin()).unwrap();
    factory.register_user(mock_user(), String::from("user"), String::from("bio"), 1).unwrap();
    let vault = factory.create_vault(mock_user(), 2).unwrap();
    assert_eq!(factory.get_user_vaults(mock_user()), Ok(vec![vault]));
    assert_eq!(factory.get_vault_owner(vault), Ok(mock_user()));
    assert_eq!(factory.get_vault_created_at(vault), Ok(n(2)));
    assert_eq!(factory.get_vault_username_hash(vault), factory.get_user_username_hash(mock_user()));
    assert_eq!(factory.get_vault_bio_hash(vault), factory.get_user_bio_hash(mock_user()));
    assert_eq!(factory.get_total_vaults(), Ok(n(1)));
    assert!(true);
}

#[test]
fn test_user_vault_functions_exist() {
    let mut vault = user_vault();
    assert_eq!(vault.deposit(mock_user(), n(10)), Ok(n(10)));
    assert_eq!(vault.withdraw(mock_user(), n(4)), Ok(n(4)));
    assert_eq!(vault.pause(mock_user()), Ok(()));
    assert_eq!(vault.unpause(mock_user()), Ok(()));
    let info = vault.get_vault_info().unwrap();
    assert_eq!(info.0, mock_user());
    assert_eq!(info.3, n(6));
    assert_eq!(vault.balance_of(mock_user()), Ok(n(6)));
    assert_eq!(vault.total_assets(), Ok(n(6)));
    assert_eq!(vault.total_supply(), Ok(n(6)));
    assert!(true);
}

#[test]
fn test_compilation_success() {
    let _ = (UserVault::new(), VaultFactory::new());
    assert!(true);
}

#[test]
fn test_contract_sizes() {
    let factory = VaultFactory::new();
    assert_eq!(factory.get_admin_count(), Ok(n(0)));
    assert!(true);
}

#[test]
fn test_event_definitions() {
    let mut vault = user_vault();
    let shares = vault.deposit(mock_user(), n(25)).unwrap();
    let burned = vault.withdraw(mock_user(), n(5)).unwrap();
    assert_eq!((shares, burned), (n(25), n(5)));
    assert!(true);
}

#[test]
fn test_error_handling() {
    let mut vault = user_vault();
    let failed = vault.deposit(mock_user(), n(0));
    assert_eq!(failed, Err(Failure::InvalidAmount));
    assert_eq!(failed.unwrap_err().kind(), ErrorKind::InvalidArgument);
    assert_eq!(failed.unwrap_err().message(), "Invalid amount");
    let mut token: Erc20<VaultShare> = Erc20::new();
    assert!(matches!(
        token.burn(mock_user(), n(1)),
        Err(Erc20Error::InsufficientBalance(_))
    ));
    assert!(true);
}

#[test]
fn test_access_control() {
    let mut vault = user_vault();
    assert_eq!(vault.pause(mock_admin()), Err(Failure::NotOwner));
    assert_eq!(vault.set_vault_decimals(mock_admin(), 1), Err(Failure::NotOwner));
    let mut factory = VaultFactory::new();
    factory.init(mock_admin()).unwrap();
    assert_eq!(
        factory.set_aave_address(mock_user(), mock_aave_pool()),
        Err(Failure::NotAuthorized)
    );
    assert_eq!(factory.set_aave_address(mock_admin(), mock_aave_pool()), Ok(()));
    assert_eq!(factory.get_aave_address(), Ok(mock_aave_pool()));
    assert!(true);
}

#[test]
fn test_pause_functionality() {
    let mut vault = user_vault();
    vault.pause(mock_user()).unwrap();
    assert_eq!(vault.deposit(mock_user(), n(1)), Err(Failure::Paused));
    vault.unpause(mock_user()).unwrap();
    assert_eq!(vault.deposit(mock_user(), n(1)), Ok(n(1)));
    assert!(true);
}

#[test]
fn test_strategy_integration() {
    let mut factory = VaultFactory::new();
    factory.init(mock_admin()).unwrap();
    factory.set_aave_address(mock_admin(), mock_aave_pool()).unwrap();
    factory.set_compound_address(mock_admin(), mock_c_token()).unwrap();
    factory.set_weth_address(mock_admin(), mock_a_token()).unwrap();
    assert_eq!(factory.get_compound_address(), Ok(mock_c_token()));
    assert_eq!(factory.get_weth_address(), Ok(mock_a_token()));
    assert_eq!(factory.get_uniswap_address(), Ok(Address::zero()));
    assert!(true);
}

#[test]
fn test_yield_generation() {
    let mut vault = user_vault();
    vault.deposit(mock_user(), n(100)).unwrap();
    assert_eq!(vault.harvest_from_protocol(mock_admin(), String::from("aave")), Err(Failure::NotOwner));
    assert_eq!(vault.total_assets(), Ok(n(100)));
    assert!(true);
}

#[test]
fn test_share_calculations() {
    assert_eq!(quote_shares(n(500), n(2000), n(1000)), Ok(n(250)));
    assert_eq!(quote_assets(n(250), n(2000), n(1000)), Ok(n(500)));
    assert_eq!(quote_shares(n(999), n(2000), n(1000)), Ok(n(499)));
    assert!(true);
}

#[test]
fn test_asset_management() {
    let mut factory = VaultFactory::new();
    factory.register_user(mock_user(), String::from("user"), String::from("bio"), 1).unwrap();
    let vault = factory.create_vault(mock_user(), 2).unwrap();
    assert_eq!(factory.deposit_to_vault(mock_user(), vault, n(9)), Ok(n(9)));
    assert_eq!(factory.withdraw_from_vault(mock_user(), vault, n(4)), Ok(n(4)));
    assert_eq!(factory.get_vault_balance(vault), Ok(n(5)));
    assert!(true);
}

#[test]
fn test_user_metadata() {
    let mut factory = VaultFactory::new();
    factory.register_user(mock_user(), String::from("user"), String::from("bio"), 77).unwrap();
    assert_eq!(factory.is_user_registered(mock_user()), Ok(true));
    assert_eq!(factory.get_user_registration_timestamp(mock_user()), Ok(n(77)));
    assert_eq!(
        factory.get_user_username_hash(mock_user()),
        Ok(smartvault::hash::hash_string("user"))
    );
    assert!(true);
}

#[test]
fn test_vault_factory_metadata() {
    let mut factory = VaultFactory::new();
    factory.init(mock_admin()).unwrap();
    assert_eq!(factory.get_deployer_admin(), Ok(mock_admin()));
    assert_eq!(factory.check_is_admin(mock_admin()), Ok(true));
    assert_eq!(factory.get_admin_count(), Ok(n(1)));
    assert!(true);
}

#[test]
fn test_strategy_metadata() {
    let vault = user_vault();
    assert_eq!(vault.get_protocol_allocation(String::from("compound")), Ok(n(0)));
    assert_eq!(vault.get_protocol_address(String::from("compound")), Ok(Address::zero()));
    assert!(true);
}

#[test]
fn test_integration_ready() {
    let mut factory = VaultFactory::new();
    factory.init(mock_admin()).unwrap();
    factory.register_user(mock_user(), String::from("user"), String::from("bio"), 1).unwrap();
    let id = factory.create_vault(mock_user(), 2).unwrap();
    let mut vault = user_vault();
    assert_eq!(vault.deposit(mock_user(), n(1000)), Ok(n(1000)));
    assert_eq!(factory.deposit_to_vault(mock_user(), id, n(1000)), Ok(n(1000)));
    assert_eq!(factory.get_vault_balance(id), vault.total_assets());
    assert!(true);
}
