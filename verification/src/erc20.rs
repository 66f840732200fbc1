//! A plain share token: balances, allowances and a total supply.

use std::marker::PhantomData;
use vstd::prelude::*;
use crate::address::Address;
use crate::sum::{
    amount_of,
    amounts,
    lemma_amounts_insert,
    lemma_total_bounds,
    lemma_total_bounds_pair,
    lemma_total_insert,
    total,
};
use crate::table::Table;
use crate::uint::{pow2_256, U256};

verus! {

/// What names a token: its name, its symbol and its number of decimals.
pub trait Erc20Params {
    const NAME: &'static str;

    const SYMBOL: &'static str;

    const DECIMALS: u8;
}

/// An account holds less than is to be taken from it.
#[derive(Clone, Copy, Debug, PartialEq, Eq)]
pub struct InsufficientBalance {
    pub from: Address,
    pub have: U256,
    pub want: U256,
}

/// A spender's allowance is less than is to be moved.
#[derive(Clone, Copy, Debug, PartialEq, Eq)]
pub struct InsufficientAllowance {
    pub owner: Address,
    pub spender: Address,
    pub have: U256,
    pub want: U256,
}

/// Why a token operation was refused.
#[derive(Clone, Copy, Debug, PartialEq, Eq)]
pub enum Erc20Error {
    InsufficientBalance(InsufficientBalance),
    InsufficientAllowance(InsufficientAllowance),
    /// The supply would leave the 256-bit range.
    Overflow,
}

/// The state of a token.
pub struct Erc20View {
    pub balances: Map<Address, nat>,
    pub allowances: Map<(Address, Address), nat>,
    pub total_supply: nat,
}

impl Erc20View {
    pub open spec fn balance_of(self, account: Address) -> nat {
        amount_of(self.balances, account)
    }

    pub open spec fn allowance(self, owner: Address, spender: Address) -> nat {
        amount_of(self.allowances, (owner, spender))
    }

    /// Conservation: the supply is the sum of all balances and fits in 256
    /// bits.
    pub open spec fn conserved(self) -> bool {
        &&& self.balances.dom().finite()
        &&& self.total_supply == total(self.balances)
        &&& self.total_supply < pow2_256()
    }

    /// The state after `value` has moved from `from` to `to`.
    pub open spec fn moved(self, from: Address, to: Address, value: nat) -> Erc20View {
        let lowered = self.balances.insert(from, (self.balance_of(from) - value) as nat);
        Erc20View { balances: lowered.insert(to, amount_of(lowered, to) + value), ..self }
    }

    /// The state after `value` has been created for `account`.
    pub open spec fn minted(self, account: Address, value: nat) -> Erc20View {
        Erc20View {
            balances: self.balances.insert(account, self.balance_of(account) + value),
            total_supply: self.total_supply + value,
            ..self
        }
    }

    /// The state after `value` has been destroyed from `account`.
    pub open spec fn burned(self, account: Address, value: nat) -> Erc20View {
        Erc20View {
            balances: self.balances.insert(account, (self.balance_of(account) - value) as nat),
            total_supply: (self.total_supply - value) as nat,
            ..self
        }
    }

    /// The state after `owner` has set the allowance of `spender`.
    pub open spec fn approved(self, owner: Address, spender: Address, value: nat) -> Erc20View {
        Erc20View { allowances: self.allowances.insert((owner, spender), value), ..self }
    }
}

/// Moving, minting and burning keep the supply the sum of the balances.
pub proof fn lemma_token_conserved(v: Erc20View, from: Address, to: Address, value: nat)
    requires
        v.conserved(),
    ensures
        v.balance_of(from) >= value ==> v.moved(from, to, value).conserved() && v.moved(
            from,
            to,
            value,
        ).balance_of(to) < pow2_256(),
        v.total_supply + value < pow2_256() ==> v.minted(to, value).conserved(),
        v.balance_of(from) >= value ==> v.burned(from, value).conserved(),
{
    lemma_total_bounds(v.balances, from);
    lemma_total_bounds(v.balances, to);
    if v.balance_of(from) >= value {
        let lowered = v.balances.insert(from, (v.balance_of(from) - value) as nat);
        lemma_total_insert(v.balances, from, (v.balance_of(from) - value) as nat);
        lemma_total_insert(lowered, to, amount_of(lowered, to) + value);
        lemma_total_bounds(v.moved(from, to, value).balances, to);
    }
    if v.total_supply + value < pow2_256() {
        lemma_total_insert(v.balances, to, v.balance_of(to) + value);
    }
}

/// A token with the parameters `T`.
pub struct Erc20<T> {
    balances: Table<Address, U256>,
    allowances: Table<(Address, Address), U256>,
    total_supply: U256,
    phantom: PhantomData<T>,
}

impl<T: Erc20Params> Erc20<T> {
    /// The token's state.
    pub closed spec fn view(&self) -> Erc20View {
        Erc20View {
            balances: amounts(self.balances@),
            allowances: amounts(self.allowances@),
            total_supply: self.total_supply@,
        }
    }

    /// The tables that the token is stored in are sound.
    pub closed spec fn stored(&self) -> bool {
        &&& self.balances.wf()
        &&& self.allowances.wf()
    }

    /// The token is sound: soundly stored, and its supply is conserved.
    pub open spec fn wf(&self) -> bool {
        &&& self.stored()
        &&& self@.conserved()
    }

    /// A token of which nothing has been issued.
    pub fn new() -> (t: Self)
        ensures
            t.wf(),
            t@ == (Erc20View { balances: Map::empty(), allowances: Map::empty(), total_supply: 0 }),
    {
        let t = Erc20 {
            balances: Table::new(),
            allowances: Table::new(),
            total_supply: U256::zero(),
            phantom: PhantomData,
        };
        proof {
            assert(t@.balances =~= Map::empty());
            assert(t@.allowances =~= Map::empty());
        }
        t
    }

    /// Moves `value` from `from` to `to`, if `from` holds as much.
    pub fn transfer_impl(&mut self, from: Address, to: Address, value: U256) -> (r: Result<
        (),
        Erc20Error,
    >)
        requires
            old(self).wf(),
        ensures
            final(self).wf(),
            old(self)@.balance_of(from) >= value@ ==> r.is_ok() && final(self)@ == old(self)@.moved(
                from,
                to,
                value@,
            ),
            old(self)@.balance_of(from) < value@ ==> *final(self) == *old(self) && (
            r matches Err(Erc20Error::InsufficientBalance(e)) && e.from == from && e.have@ == old(self)@.balance_of(from) && e.want == value),
    {
        let old_sender_balance = self.balances.amount(&from);
        if old_sender_balance.lt(&value) {
            return Err(
                Erc20Error::InsufficientBalance(
                    InsufficientBalance { from, have: old_sender_balance, want: value },
                ),
            );
        }
        proof {
            lemma_token_conserved(self@, from, to, value@);
        }
        let lowered = old_sender_balance.checked_sub(value).unwrap();
        proof {
            lemma_amounts_insert(self.balances@, from, lowered);
        }
        self.balances.insert(from, lowered);
        let to_balance = self.balances.amount(&to);
        let new_to_balance = to_balance.checked_add(value).unwrap();
        proof {
            lemma_amounts_insert(self.balances@, to, new_to_balance);
        }
        self.balances.insert(to, new_to_balance);
        Ok(())
    }

    /// Creates `value` for `address`, unless the supply would leave the
    /// 256-bit range.
    pub fn mint(&mut self, address: Address, value: U256) -> (r: Result<(), Erc20Error>)
        requires
            old(self).wf(),
        ensures
            final(self).wf(),
            old(self)@.total_supply + value@ < pow2_256() ==> r.is_ok() && final(self)@ == old(self)@.minted(address, value@),
            old(self)@.total_supply + value@ >= pow2_256() ==> *final(self) == *old(self) && (
            r matches Err(Erc20Error::Overflow)),
    {
        let supply = match self.total_supply.checked_add(value) {
            Some(s) => s,
            None => {
                return Err(Erc20Error::Overflow);
            },
        };
        let balance = self.balances.amount(&address);
        proof {
            lemma_total_bounds(self@.balances, address);
            lemma_token_conserved(self@, address, address, value@);
        }
        let new_balance = balance.checked_add(value).unwrap();
        proof {
            lemma_amounts_insert(self.balances@, address, new_balance);
        }
        self.balances.insert(address, new_balance);
        self.total_supply = supply;
        Ok(())
    }

    /// Destroys `value` from `address`, if it holds as much.
    pub fn burn(&mut self, address: Address, value: U256) -> (r: Result<(), Erc20Error>)
        requires
            old(self).wf(),
        ensures
            final(self).wf(),
            old(self)@.balance_of(address) >= value@ ==> r.is_ok() && final(self)@ == old(self)@.burned(address, value@),
            old(self)@.balance_of(address) < value@ ==> *final(self) == *old(self) && (
            r matches Err(Erc20Error::InsufficientBalance(e)) && e.from == address && e.have@
                == old(self)@.balance_of(address) && e.want == value),
    {
        let old_balance = self.balances.amount(&address);
        if old_balance.lt(&value) {
            return Err(
                Erc20Error::InsufficientBalance(
                    InsufficientBalance { from: address, have: old_balance, want: value },
                ),
            );
        }
        proof {
            lemma_total_bounds(self@.balances, address);
            lemma_token_conserved(self@, address, address, value@);
        }
        let new_balance = old_balance.checked_sub(value).unwrap();
        let supply = self.total_supply.checked_sub(value).unwrap();
        proof {
            lemma_amounts_insert(self.balances@, address, new_balance);
        }
        self.balances.insert(address, new_balance);
        self.total_supply = supply;
        Ok(())
    }

    /// The token's name.
    pub fn name() -> (r: Result<String, Erc20Error>)
        ensures
            r matches Ok(s) && s@ == T::NAME@,
    {
        Ok(T::NAME.to_owned())
    }

    /// The token's symbol.
    pub fn symbol() -> (r: Result<String, Erc20Error>)
        ensures
            r matches Ok(s) && s@ == T::SYMBOL@,
    {
        Ok(T::SYMBOL.to_owned())
    }

    /// The token's number of decimals.
    pub fn decimals() -> (r: Result<u8, Erc20Error>)
        ensures
            r == Ok::<u8, Erc20Error>(T::DECIMALS),
    {
        Ok(T::DECIMALS)
    }

    /// What `address` holds.
    pub fn balance_of(&self, address: Address) -> (r: Result<U256, Erc20Error>)
        requires
            self.wf(),
        ensures
            r matches Ok(b) && b@ == self@.balance_of(address),
    {
        Ok(self.balances.amount(&address))
    }

    /// Moves `value` from the caller to `to`.
    pub fn transfer(&mut self, caller: Address, to: Address, value: U256) -> (r: Result<
        bool,
        Erc20Error,
    >)
        requires
            old(self).wf(),
        ensures
            final(self).wf(),
            old(self)@.balance_of(caller) >= value@ ==> r == Ok::<bool, Erc20Error>(true) && final(self)@ == old(self)@.moved(caller, to, value@),
            old(self)@.balance_of(caller) < value@ ==> *final(self) == *old(self) && (
            r matches Err(Erc20Error::InsufficientBalance(e)) && e.from == caller && e.have@
                == old(self)@.balance_of(caller) && e.want == value),
    {
        match self.transfer_impl(caller, to, value) {
            Ok(()) => Ok(true),
            Err(e) => Err(e),
        }
    }

    /// Sets the allowance that the caller gives `spender`.
    pub fn approve(&mut self, caller: Address, spender: Address, value: U256) -> (r: Result<
        bool,
        Erc20Error,
    >)
        requires
            old(self).wf(),
        ensures
            final(self).wf(),
            r == Ok::<bool, Erc20Error>(true),
            final(self)@ == old(self)@.approved(caller, spender, value@),
    {
        proof {
            lemma_amounts_insert(self.allowances@, (caller, spender), value);
        }
        self.allowances.insert((caller, spender), value);
        Ok(true)
    }

    /// Moves `value` from `from` to `to` on the caller's allowance: refused
    /// where the allowance is less than `value`, then where `from` holds
    /// less than `value`.
    pub fn transfer_from(&mut self, caller: Address, from: Address, to: Address, value: U256) -> (r:
        Result<bool, Erc20Error>)
        requires
            old(self).wf(),
        ensures
            final(self).wf(),
            old(self)@.allowance(from, caller) < value@ ==> *final(self) == *old(self) && (
            r matches Err(Erc20Error::InsufficientAllowance(e)) && e.owner == from && e.spender
                == caller && e.have@ == old(self)@.allowance(from, caller) && e.want == value),
            old(self)@.allowance(from, caller) >= value@ && old(self)@.balance_of(from) < value@
                ==> *final(self) == *old(self) && (
            r matches Err(Erc20Error::InsufficientBalance(e)) && e.from == from && e.have@ == old(self)@.balance_of(from) && e.want == value),
            old(self)@.allowance(from, caller) >= value@ && old(self)@.balance_of(from) >= value@
                ==> r == Ok::<bool, Erc20Error>(true) && final(self)@ == old(self)@.moved(
                from,
                to,
                value@,
            ).approved(from, caller, (old(self)@.allowance(from, caller) - value@) as nat),
    {
        let old_allowance = self.allowances.amount(&(from, caller));
        if old_allowance.lt(&value) {
            return Err(
                Erc20Error::InsufficientAllowance(
                    InsufficientAllowance {
                        owner: from,
                        spender: caller,
                        have: old_allowance,
                        want: value,
                    },
                ),
            );
        }
        match self.transfer_impl(from, to, value) {
            Ok(()) => {},
            Err(e) => {
                return Err(e);
            },
        }
        let lowered = old_allowance.checked_sub(value).unwrap();
        proof {
            lemma_amounts_insert(self.allowances@, (from, caller), lowered);
        }
        self.allowances.insert((from, caller), lowered);
        Ok(true)
    }

    /// What `spender` may still move for `owner`.
    pub fn allowance(&self, owner: Address, spender: Address) -> (r: Result<U256, Erc20Error>)
        requires
            self.wf(),
        ensures
            r matches Ok(a) && a@ == self@.allowance(owner, spender),
    {
        Ok(self.allowances.amount(&(owner, spender)))
    }

    /// The supply.
    pub fn total_supply(&self) -> (t: U256)
        ensures
            t@ == self@.total_supply,
    {
        self.total_supply
    }
}

} // verus!
