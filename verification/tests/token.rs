use smartvault::erc20::{InsufficientAllowance, InsufficientBalance};
use smartvault::{Address, Erc20, Erc20Error, Erc20Params, U256};

struct Shares;

impl Erc20Params for Shares {
    const NAME: &'static str = "Pool Share";
    const SYMBOL: &'static str = "PS";
    const DECIMALS: u8 = 18;
}

fn addr(n: u8) -> Address {
    Address::from_bytes([n; 20])
}

fn n(x: u64) -> U256 {
    U256::from_u64(x)
}

#[test]
fn token_parameters_come_from_the_type() {
    assert_eq!(Erc20::<Shares>::name(), Ok(String::from("Pool Share")));
    assert_eq!(Erc20::<Shares>::symbol(), Ok(String::from("PS")));
    assert_eq!(Erc20::<Shares>::decimals(), Ok(18));
}

#[test]
fn token_mint_and_burn_move_the_supply() {
    let mut token: Erc20<Shares> = Erc20::new();
    assert_eq!(token.total_supply(), n(0));
    assert_eq!(token.mint(addr(1), n(100)), Ok(()));
    assert_eq!(token.mint(addr(2), n(50)), Ok(()));
    assert_eq!(token.total_supply(), n(150));
    assert_eq!(token.balance_of(addr(1)), Ok(n(100)));
    assert_eq!(token.burn(addr(1), n(30)), Ok(()));
    assert_eq!(token.balance_of(addr(1)), Ok(n(70)));
    assert_eq!(token.total_supply(), n(120));
    assert_eq!(
        token.burn(addr(2), n(51)),
        Err(Erc20Error::InsufficientBalance(InsufficientBalance {
            from: addr(2),
            have: n(50),
            want: n(51),
        }))
    );
    assert_eq!(token.total_supply(), n(120));
    assert_eq!(token.mint(addr(3), U256::max_value()), Err(Erc20Error::Overflow));
    assert_eq!(token.balance_of(addr(3)), Ok(n(0)));
}

#[test]
fn token_transfer_needs_the_balance() {
    let mut token: Erc20<Shares> = Erc20::new();
    token.mint(addr(1), n(100)).unwrap();
    assert_eq!(token.transfer(addr(1), addr(2), n(40)), Ok(true));
    assert_eq!(token.balance_of(addr(1)), Ok(n(60)));
    assert_eq!(token.balance_of(addr(2)), Ok(n(40)));
    assert_eq!(
        token.transfer(addr(2), addr(1), n(41)),
        Err(Erc20Error::InsufficientBalance(InsufficientBalance {
            from: addr(2),
            have: n(40),
            want: n(41),
        }))
    );
    assert_eq!(token.transfer(addr(2), addr(2), n(40)), Ok(true));
    assert_eq!(token.balance_of(addr(2)), Ok(n(40)));
    assert_eq!(
        token.transfer_impl(addr(2), addr(2), n(41)),
        Err(Erc20Error::InsufficientBalance(InsufficientBalance {
            from: addr(2),
            have: n(40),
            want: n(41),
        }))
    );
    assert_eq!(token.transfer_impl(addr(2), addr(3), n(1)), Ok(()));
    assert_eq!(token.balance_of(addr(3)), Ok(n(1)));
    assert_eq!(token.total_supply(), n(100));
}

#[test]
fn token_allowance_is_enforced() {
    let mut token: Erc20<Shares> = Erc20::new();
    token.mint(addr(1), n(1000)).unwrap();
    assert_eq!(token.approve(addr(1), addr(2), n(100)), Ok(true));
    assert_eq!(
        token.transfer_from(addr(2), addr(1), addr(3), n(150)),
        Err(Erc20Error::InsufficientAllowance(InsufficientAllowance {
            owner: addr(1),
            spender: addr(2),
            have: n(100),
            want: n(150),
        }))
    );
    assert_eq!(token.transfer_from(addr(2), addr(1), addr(3), n(100)), Ok(true));
    assert_eq!(token.allowance(addr(1), addr(2)), Ok(n(0)));
    assert_eq!(token.balance_of(addr(3)), Ok(n(100)));
    assert_eq!(token.balance_of(addr(1)), Ok(n(900)));
    token.approve(addr(3), addr(2), n(500)).unwrap();
    assert_eq!(
        token.transfer_from(addr(2), addr(3), addr(1), n(101)),
        Err(Erc20Error::InsufficientBalance(InsufficientBalance {
            from: addr(3),
            have: n(100),
            want: n(101),
        }))
    );
    assert_eq!(token.allowance(addr(3), addr(2)), Ok(n(500)));
    assert_eq!(token.total_supply(), n(1000));
}
