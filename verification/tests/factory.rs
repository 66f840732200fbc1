use smartvault::hash::hash_string;
use smartvault::{Address, ErrorKind, Failure, VaultFactory, U256};

fn addr(n: u8) -> Address {
    Address::from_bytes([n; 20])
}

fn n(x: u64) -> U256 {
    U256::from_u64(x)
}

fn root() -> Address {
    addr(6)
}

fn ready_factory() -> VaultFactory {
    let mut factory = VaultFactory::new();
    assert_eq!(factory.init(root()), Ok(()));
    factory
}

fn expected_vault(user: Address, vault_id: u64, timestamp: u64) -> Address {
    let mut data: Vec<u8> = Vec::new();
    data.extend_from_slice(&user.to_bytes());
    data.extend_from_slice(&[0u8; 24]);
    data.extend_from_slice(&vault_id.to_be_bytes());
    data.extend_from_slice(&timestamp.to_be_bytes());
    data.extend_from_slice(b"UserVault");
    let hash = alloy_primitives::keccak256(&data);
    let mut bytes = [0u8; 20];
    bytes.copy_from_slice(&hash[12..32]);
    Address::from_bytes(bytes)
}

#[test]
fn fresh_registry_is_blank() {
    let factory = VaultFactory::new();
    assert_eq!(factory.get_deployer_admin(), Ok(Address::zero()));
    assert_eq!(factory.get_admin_count(), Ok(n(0)));
    assert_eq!(factory.get_total_vaults(), Ok(n(0)));
    assert_eq!(factory.check_is_admin(root()), Ok(false));
    assert_eq!(factory.get_aave_address(), Ok(Address::zero()));
    assert_eq!(factory.get_user_vaults(addr(5)), Ok(Vec::new()));
}

#[test]
fn init_makes_the_caller_root_once() {
    let mut factory = ready_factory();
    assert_eq!(factory.get_deployer_admin(), Ok(root()));
    assert_eq!(factory.check_is_admin(root()), Ok(true));
    assert_eq!(factory.get_admin_count(), Ok(n(1)));
    assert_eq!(factory.init(addr(7)), Err(Failure::AlreadyInitialized));
    assert_eq!(factory.init(root()), Err(Failure::AlreadyInitialized));
    assert_eq!(factory.get_deployer_admin(), Ok(root()));
    assert_eq!(factory.check_is_admin(addr(7)), Ok(false));
    assert_eq!(factory.get_admin_count(), Ok(n(1)));
}

#[test]
fn nobody_is_admin_before_init() {
    let mut factory = VaultFactory::new();
    assert_eq!(factory.add_admin(root(), addr(7)), Err(Failure::NotAuthorized));
    assert_eq!(factory.remove_admin(root(), addr(7)), Err(Failure::NotAuthorized));
    assert_eq!(factory.set_aave_address(Address::zero(), addr(2)), Err(Failure::NotAuthorized));
    assert_eq!(factory.get_admin_count(), Ok(n(0)));
}

#[test]
fn admins_are_added_and_removed_by_admins() {
    let mut factory = ready_factory();
    assert_eq!(factory.add_admin(addr(7), addr(8)), Err(Failure::NotAuthorized));
    assert_eq!(factory.add_admin(root(), addr(7)), Ok(()));
    assert_eq!(factory.add_admin(root(), addr(7)), Err(Failure::AlreadyAdmin));
    assert_eq!(Failure::<U256>::AlreadyAdmin.kind(), ErrorKind::AlreadyExists);
    assert_eq!(factory.add_admin(root(), root()), Err(Failure::AlreadyAdmin));
    assert_eq!(factory.add_admin(addr(7), addr(8)), Ok(()));
    assert_eq!(factory.get_admin_count(), Ok(n(3)));
    assert_eq!(factory.remove_admin(addr(9), addr(8)), Err(Failure::NotAuthorized));
    assert_eq!(factory.remove_admin(addr(7), addr(9)), Err(Failure::NotAdmin));
    assert_eq!(factory.remove_admin(addr(7), addr(8)), Ok(()));
    assert_eq!(factory.check_is_admin(addr(8)), Ok(false));
    assert_eq!(factory.get_admin_count(), Ok(n(2)));
    assert_eq!(factory.remove_admin(addr(7), addr(8)), Err(Failure::NotAdmin));
    assert_eq!(factory.add_admin(addr(8), addr(9)), Err(Failure::NotAuthorized));
    assert_eq!(factory.add_admin(root(), addr(8)), Ok(()));
    assert_eq!(factory.get_admin_count(), Ok(n(3)));
    assert_eq!(factory.remove_admin(addr(7), addr(7)), Ok(()));
    assert_eq!(factory.get_admin_count(), Ok(n(2)));
}

#[test]
fn root_admin_is_never_removed() {
    let mut factory = ready_factory();
    factory.add_admin(root(), addr(7)).unwrap();
    assert_eq!(factory.remove_admin(root(), root()), Err(Failure::CannotRemoveRoot));
    assert_eq!(factory.remove_admin(addr(7), root()), Err(Failure::CannotRemoveRoot));
    assert_eq!(factory.remove_admin(addr(9), root()), Err(Failure::NotAuthorized));
    assert_eq!(factory.check_is_admin(root()), Ok(true));
    assert_eq!(factory.get_admin_count(), Ok(n(2)));
}

#[test]
fn venue_addresses_are_set_by_admins() {
    let mut factory = ready_factory();
    assert_eq!(factory.set_aave_address(addr(7), addr(1)), Err(Failure::NotAuthorized));
    assert_eq!(factory.set_compound_address(addr(7), addr(2)), Err(Failure::NotAuthorized));
    assert_eq!(factory.set_uniswap_address(addr(7), addr(3)), Err(Failure::NotAuthorized));
    assert_eq!(factory.set_weth_address(addr(7), addr(4)), Err(Failure::NotAuthorized));
    assert_eq!(factory.get_aave_address(), Ok(Address::zero()));
    assert_eq!(factory.set_aave_address(root(), addr(1)), Ok(()));
    assert_eq!(factory.set_compound_address(root(), addr(2)), Ok(()));
    assert_eq!(factory.set_uniswap_address(root(), addr(3)), Ok(()));
    assert_eq!(factory.set_weth_address(root(), addr(4)), Ok(()));
    assert_eq!(factory.get_aave_address(), Ok(addr(1)));
    assert_eq!(factory.get_compound_address(), Ok(addr(2)));
    assert_eq!(factory.get_uniswap_address(), Ok(addr(3)));
    assert_eq!(factory.get_weth_address(), Ok(addr(4)));
    assert_eq!(factory.get_admin_count(), Ok(n(1)));
}

#[test]
fn registration_keeps_commitments_and_happens_once() {
    let mut factory = ready_factory();
    let user = addr(5);
    assert_eq!(factory.is_user_registered(user), Ok(false));
    assert_eq!(factory.get_user_registration_timestamp(user), Err(Failure::NotRegistered));
    assert_eq!(factory.get_user_username_hash(user), Err(Failure::NotRegistered));
    assert_eq!(factory.get_user_bio_hash(user), Err(Failure::NotRegistered));
    assert_eq!(
        factory.register_user(user, String::from("alice"), String::from("likes vaults"), 1234),
        Ok(())
    );
    assert_eq!(factory.is_user_registered(user), Ok(true));
    assert_eq!(factory.get_user_registration_timestamp(user), Ok(n(1234)));
    assert_eq!(factory.get_user_username_hash(user), Ok(hash_string("alice")));
    assert_eq!(factory.get_user_bio_hash(user), Ok(hash_string("likes vaults")));
    let again = factory.register_user(user, String::from("bob"), String::from("other"), 99);
    assert_eq!(again, Err(Failure::AlreadyRegistered));
    assert_eq!(again.unwrap_err().kind(), ErrorKind::AlreadyExists);
    assert_eq!(factory.get_user_registration_timestamp(user), Ok(n(1234)));
    assert_eq!(factory.get_user_username_hash(user), Ok(hash_string("alice")));
    assert_eq!(factory.get_user_bio_hash(user), Ok(hash_string("likes vaults")));
    assert_eq!(factory.is_user_registered(addr(4)), Ok(false));
}

#[test]
fn registration_bounds_its_texts() {
    let mut factory = VaultFactory::new();
    let name20 = "a".repeat(20);
    let name21 = "a".repeat(21);
    let bio30 = "b".repeat(30);
    let bio31 = "b".repeat(31);
    assert_eq!(
        factory.register_user(addr(5), name21.clone(), bio31.clone(), 1),
        Err(Failure::UsernameTooLong)
    );
    assert_eq!(
        factory.register_user(addr(5), name20.clone(), bio31, 1),
        Err(Failure::BioTooLong)
    );
    assert_eq!(factory.is_user_registered(addr(5)), Ok(false));
    assert_eq!(factory.register_user(addr(5), name20, bio30, 1), Ok(()));
    assert_eq!(
        factory.register_user(addr(5), name21, String::new(), 1),
        Err(Failure::UsernameTooLong)
    );
    let two_bytes_each = "é".repeat(11);
    assert_eq!(
        factory.register_user(addr(4), two_bytes_each, String::new(), 1),
        Err(Failure::UsernameTooLong)
    );
    assert_eq!(factory.register_user(addr(4), "é".repeat(10), String::new(), 1), Ok(()));
}

#[test]
fn registering_by_commitment() {
    let mut factory = VaultFactory::new();
    assert_eq!(factory.register_hashed(addr(5), [1u8; 32], [2u8; 32], 77), Ok(()));
    assert_eq!(factory.get_user_username_hash(addr(5)), Ok([1u8; 32]));
    assert_eq!(factory.get_user_bio_hash(addr(5)), Ok([2u8; 32]));
    assert_eq!(
        factory.register_hashed(addr(5), [3u8; 32], [4u8; 32], 78),
        Err(Failure::AlreadyRegistered)
    );
    assert_eq!(factory.get_user_username_hash(addr(5)), Ok([1u8; 32]));
}

#[test]
fn vaults_are_created_for_registered_users() {
    let mut factory = ready_factory();
    let user = addr(5);
    assert_eq!(factory.create_vault(user, 1000), Err(Failure::NotRegistered));
    factory.register_user(user, String::from("alice"), String::from("bio"), 900).unwrap();
    let first = factory.create_vault(user, 1000).unwrap();
    assert_eq!(first, expected_vault(user, 1, 1000));
    assert_eq!(factory.get_total_vaults(), Ok(n(1)));
    assert_eq!(factory.get_vault_owner(first), Ok(user));
    assert_eq!(factory.get_vault_created_at(first), Ok(n(1000)));
    assert_eq!(factory.get_vault_username_hash(first), Ok(hash_string("alice")));
    assert_eq!(factory.get_vault_bio_hash(first), Ok(hash_string("bio")));
    let second = factory.create_vault(user, 1000).unwrap();
    assert_eq!(second, expected_vault(user, 2, 1000));
    assert_ne!(first, second);
    assert_eq!(factory.get_user_vaults(user), Ok(vec![first, second]));
    assert_eq!(factory.get_total_vaults(), Ok(n(2)));
    factory.register_user(addr(4), String::from("bob"), String::new(), 901).unwrap();
    let third = factory.create_vault(addr(4), 1001).unwrap();
    assert_eq!(third, expected_vault(addr(4), 3, 1001));
    assert_eq!(factory.get_user_vaults(addr(4)), Ok(vec![third]));
    assert_eq!(factory.get_user_vaults(user), Ok(vec![first, second]));
    assert_eq!(factory.get_vault_owner(third), Ok(addr(4)));
    assert_eq!(factory.get_total_vaults(), Ok(n(3)));
}

#[test]
fn unknown_vaults_read_as_blank() {
    let factory = ready_factory();
    let nowhere = addr(3);
    let failed = factory.get_vault_owner(nowhere);
    assert_eq!(failed, Err(Failure::VaultNotFound));
    assert_eq!(failed.unwrap_err().kind(), ErrorKind::NotFound);
    assert_eq!(factory.get_vault_created_at(nowhere), Ok(n(0)));
    assert_eq!(factory.get_vault_username_hash(nowhere), Ok([0u8; 32]));
    assert_eq!(factory.get_vault_bio_hash(nowhere), Ok([0u8; 32]));
    assert_eq!(factory.get_vault_balance(nowhere), Ok(n(0)));
}

#[test]
fn recording_a_vault_under_a_given_identifier() {
    let mut factory = VaultFactory::new();
    assert_eq!(factory.create_vault_at(addr(5), addr(1), 10), Err(Failure::NotRegistered));
    factory.register_hashed(addr(5), [1u8; 32], [2u8; 32], 1).unwrap();
    factory.register_hashed(addr(4), [3u8; 32], [4u8; 32], 1).unwrap();
    assert_eq!(factory.create_vault_at(addr(5), addr(1), 10), Ok(addr(1)));
    assert_eq!(factory.create_vault_at(addr(5), addr(1), 11), Err(Failure::VaultExists));
    assert_eq!(factory.create_vault_at(addr(4), addr(1), 11), Err(Failure::VaultExists));
    assert_eq!(factory.get_vault_owner(addr(1)), Ok(addr(5)));
    assert_eq!(factory.get_vault_created_at(addr(1)), Ok(n(10)));
    assert_eq!(factory.get_vault_username_hash(addr(1)), Ok([1u8; 32]));
    assert_eq!(factory.get_user_vaults(addr(5)), Ok(vec![addr(1)]));
    assert_eq!(factory.get_user_vaults(addr(4)), Ok(Vec::new()));
    assert_eq!(factory.get_total_vaults(), Ok(n(1)));
}

#[test]
fn vault_balances_belong_to_the_owner() {
    let mut factory = ready_factory();
    let user = addr(5);
    factory.register_user(user, String::from("alice"), String::from("bio"), 900).unwrap();
    let vault = factory.create_vault(user, 1000).unwrap();
    assert_eq!(factory.deposit_to_vault(addr(4), vault, n(10)), Err(Failure::NotVaultOwner));
    assert_eq!(factory.deposit_to_vault(user, addr(3), n(10)), Err(Failure::NotVaultOwner));
    assert_eq!(factory.deposit_to_vault(user, vault, n(100)), Ok(n(100)));
    assert_eq!(factory.deposit_to_vault(user, vault, n(50)), Ok(n(50)));
    assert_eq!(factory.get_vault_balance(vault), Ok(n(150)));
    assert_eq!(
        factory.deposit_to_vault(user, vault, U256::max_value()),
        Err(Failure::Overflow)
    );
    assert_eq!(factory.withdraw_from_vault(addr(4), vault, n(10)), Err(Failure::NotVaultOwner));
    assert_eq!(
        factory.withdraw_from_vault(user, vault, n(151)),
        Err(Failure::InsufficientBalance { have: n(150), want: n(151) })
    );
    assert_eq!(factory.withdraw_from_vault(user, vault, n(150)), Ok(n(150)));
    assert_eq!(factory.get_vault_balance(vault), Ok(n(0)));
}

#[test]
fn fee_is_bounded_and_set_by_admins() {
    let mut factory = ready_factory();
    assert_eq!(factory.get_fee_percentage(), Ok(0));
    assert_eq!(factory.get_fee_recipient(), Ok(Address::zero()));
    assert_eq!(factory.set_fee_percentage(addr(7), 10), Err(Failure::NotAuthorized));
    assert_eq!(factory.set_fee_percentage(root(), 1001), Err(Failure::FeeTooHigh));
    assert_eq!(Failure::<U256>::FeeTooHigh.kind(), ErrorKind::InvalidArgument);
    assert_eq!(factory.get_fee_percentage(), Ok(0));
    assert_eq!(factory.set_fee_percentage(root(), 1000), Ok(()));
    assert_eq!(factory.get_fee_percentage(), Ok(1000));
    assert_eq!(factory.set_fee_percentage(root(), 25), Ok(()));
    assert_eq!(factory.get_fee_percentage(), Ok(25));
    assert_eq!(factory.set_fee_recipient(addr(7), addr(8)), Err(Failure::NotAuthorized));
    assert_eq!(factory.set_fee_recipient(root(), Address::zero()), Err(Failure::InvalidAddress));
    assert_eq!(factory.set_fee_recipient(root(), addr(8)), Ok(()));
    assert_eq!(factory.get_fee_recipient(), Ok(addr(8)));
    assert_eq!(factory.get_admin_count(), Ok(n(1)));
}
