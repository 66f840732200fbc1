//! One vault: a pool of assets, the shares that divide it, the rights to
//! move those shares, and what its owner has earmarked for outside venues.

use vstd::prelude::*;
use vstd::string::StringSliceAdditionalSpecFns;
use vstd::utf8::encode_utf8;
use crate::address::Address;
use crate::error::{Failure, VaultError};
use crate::hash::{hash_string, keccak256};
use crate::sum::{
    amount_of,
    amounts,
    lemma_amounts_insert,
    lemma_total_bounds,
    lemma_total_bounds_pair,
    seq_total,
    sum_entries,
    total,
};
use crate::table::{assoc_of, distinct_keys, lemma_assoc_of_total, Table};
use crate::uint::{pow2_256, U256};
use crate::vault_model::{
    lemma_allocations_stay_covered,
    lemma_assets_for_bounded,
    lemma_covered_frame,
    lemma_deposit_conserves,
    lemma_mint_conserves,
    lemma_redeem_conserves,
    lemma_transfer_conserves,
    assets_for,
    lemma_withdraw_conserves,
    shares_for,
    VaultView,
};

verus! {

/// A vault and all that it records.
pub struct UserVault {
    owner: Address,
    asset: Address,
    factory: Address,
    total_assets: U256,
    total_supply: U256,
    balances: Table<Address, U256>,
    allowances: Table<(Address, Address), U256>,
    username_hash: [u8; 32],
    bio_hash: [u8; 32],
    created_at: U256,
    paused: bool,
    vault_name_hash: [u8; 32],
    vault_symbol_hash: [u8; 32],
    vault_decimals: u8,
    username_limit: U256,
    bio_limit: U256,
    initialized: bool,
    protocol_allocations: Table<String, U256>,
    protocol_addresses: Table<String, Address>,
}

/// All that a vault records, as plain values: what is kept of a vault
/// between two operations.
pub struct VaultState {
    pub owner: Address,
    pub asset: Address,
    pub factory: Address,
    pub total_assets: U256,
    pub total_supply: U256,
    pub balances: Vec<(Address, U256)>,
    pub allowances: Vec<((Address, Address), U256)>,
    pub username_hash: [u8; 32],
    pub bio_hash: [u8; 32],
    pub created_at: U256,
    pub paused: bool,
    pub vault_name_hash: [u8; 32],
    pub vault_symbol_hash: [u8; 32],
    pub vault_decimals: u8,
    pub username_limit: U256,
    pub bio_limit: U256,
    pub initialized: bool,
    pub protocol_allocations: Vec<(String, U256)>,
    pub protocol_addresses: Vec<(String, Address)>,
}

impl VaultState {
    /// The state that the values stand for.
    pub open spec fn view(&self) -> VaultView {
        VaultView {
            owner: self.owner,
            asset: self.asset,
            factory: self.factory,
            total_assets: self.total_assets@,
            total_supply: self.total_supply@,
            balances: amounts(assoc_of(self.balances@)),
            allowances: amounts(assoc_of(self.allowances@)),
            username_hash: self.username_hash@,
            bio_hash: self.bio_hash@,
            created_at: self.created_at@,
            paused: self.paused,
            vault_name_hash: self.vault_name_hash@,
            vault_symbol_hash: self.vault_symbol_hash@,
            vault_decimals: self.vault_decimals,
            username_limit: self.username_limit@,
            bio_limit: self.bio_limit@,
            initialized: self.initialized,
            protocol_allocations: amounts(assoc_of(self.protocol_allocations@)),
            protocol_addresses: assoc_of(self.protocol_addresses@),
        }
    }

    /// The values stand for a sound vault: no key is listed twice, the
    /// balances add up to the supply, and no venue is earmarked more than
    /// the pool holds.
    pub open spec fn restorable(&self) -> bool {
        &&& distinct_keys(self.balances@)
        &&& distinct_keys(self.allowances@)
        &&& distinct_keys(self.protocol_allocations@)
        &&& distinct_keys(self.protocol_addresses@)
        &&& seq_total(self.balances@) == self.total_supply@
        &&& self@.allocations_covered()
    }
}

/// Whether a text of `len` bytes is over `limit`.
fn over_limit(len: usize, limit: &U256) -> (r: bool)
    ensures
        r == (len > limit@),
{
    match limit.to_u64() {
        Some(l) => len as u64 > l,
        None => false,
    }
}

/// The shares that `assets` buy from a pool of `total_assets` with
/// `total_supply` shares outstanding, or the refusal where the product of
/// assets and supply does not fit in 256 bits.
pub fn quote_shares(assets: U256, total_assets: U256, total_supply: U256) -> (r: Result<
    U256,
    VaultError,
>)
    ensures
        total_supply@ != 0 && total_assets@ != 0 && assets@ * total_supply@ >= pow2_256() ==> (
        r matches Err(Failure::Overflow)),
        !(total_supply@ != 0 && total_assets@ != 0 && assets@ * total_supply@ >= pow2_256()) ==> (
        r matches Ok(s) && s@ == shares_for(assets@, total_assets@, total_supply@)),
{
    if total_supply.is_zero() {
        return Ok(assets);
    }
    if total_assets.is_zero() {
        return Ok(U256::zero());
    }
    match assets.checked_mul(total_supply) {
        Some(product) => Ok(product.checked_div(total_assets).unwrap()),
        None => Err(Failure::Overflow),
    }
}

/// The assets that `shares` stand for in a pool of `total_assets` with
/// `total_supply` shares outstanding, or the refusal where the product of
/// shares and assets does not fit in 256 bits.
pub fn quote_assets(shares: U256, total_assets: U256, total_supply: U256) -> (r: Result<
    U256,
    VaultError,
>)
    ensures
        total_supply@ != 0 && shares@ * total_assets@ >= pow2_256() ==> (
        r matches Err(Failure::Overflow)),
        !(total_supply@ != 0 && shares@ * total_assets@ >= pow2_256()) ==> (r matches Ok(a) && a@
            == assets_for(shares@, total_assets@, total_supply@)),
{
    if total_supply.is_zero() {
        return Ok(U256::zero());
    }
    match shares.checked_mul(total_assets) {
        Some(product) => Ok(product.checked_div(total_supply).unwrap()),
        None => Err(Failure::Overflow),
    }
}

impl UserVault {
    /// The vault's state.
    pub closed spec fn view(&self) -> VaultView {
        VaultView {
            owner: self.owner,
            asset: self.asset,
            factory: self.factory,
            total_assets: self.total_assets@,
            total_supply: self.total_supply@,
            balances: amounts(self.balances@),
            allowances: amounts(self.allowances@),
            username_hash: self.username_hash@,
            bio_hash: self.bio_hash@,
            created_at: self.created_at@,
            paused: self.paused,
            vault_name_hash: self.vault_name_hash@,
            vault_symbol_hash: self.vault_symbol_hash@,
            vault_decimals: self.vault_decimals,
            username_limit: self.username_limit@,
            bio_limit: self.bio_limit@,
            initialized: self.initialized,
            protocol_allocations: amounts(self.protocol_allocations@),
            protocol_addresses: self.protocol_addresses@,
        }
    }

    /// The tables that the vault is stored in are sound.
    pub closed spec fn stored(&self) -> bool {
        &&& self.balances.wf()
        &&& self.allowances.wf()
        &&& self.protocol_allocations.wf()
        &&& self.protocol_addresses.wf()
    }

    /// The vault is sound: soundly stored, its shares are conserved and its
    /// allocations are covered.
    pub open spec fn wf(&self) -> bool {
        &&& self.stored()
        &&& self@.sound()
    }

    /// A vault that nothing has been done to: not set up, empty, not paused.
    pub fn new() -> (v: UserVault)
        ensures
            v.wf(),
            v@ == VaultView::blank(),
    {
        let v = UserVault {
            owner: Address::zero(),
            asset: Address::zero(),
            factory: Address::zero(),
            total_assets: U256::zero(),
            total_supply: U256::zero(),
            balances: Table::new(),
            allowances: Table::new(),
            username_hash: [0u8; 32],
            bio_hash: [0u8; 32],
            created_at: U256::zero(),
            paused: false,
            vault_name_hash: [0u8; 32],
            vault_symbol_hash: [0u8; 32],
            vault_decimals: 0,
            username_limit: U256::zero(),
            bio_limit: U256::zero(),
            initialized: false,
            protocol_allocations: Table::new(),
            protocol_addresses: Table::new(),
        };
        proof {
            assert(v@.balances =~= Map::empty());
            assert(v@.allowances =~= Map::empty());
            assert(v@.protocol_allocations =~= Map::empty());
            assert(v@.username_hash =~= Seq::new(32, |i: int| 0u8));
            assert(v@.bio_hash =~= Seq::new(32, |i: int| 0u8));
            assert(v@.vault_name_hash =~= Seq::new(32, |i: int| 0u8));
            assert(v@.vault_symbol_hash =~= Seq::new(32, |i: int| 0u8));
        }
        v
    }

    /// All that the vault records, as plain values from which
    /// [`UserVault::restore`] makes the same vault again.
    pub fn state(&self) -> (s: VaultState)
        requires
            self.wf(),
        ensures
            s.restorable(),
            s@ == self@,
    {
        let balances = self.balances.entries();
        proof {
            lemma_assoc_of_total(balances@);
        }
        VaultState {
            owner: self.owner,
            asset: self.asset,
            factory: self.factory,
            total_assets: self.total_assets,
            total_supply: self.total_supply,
            balances,
            allowances: self.allowances.entries(),
            username_hash: self.username_hash,
            bio_hash: self.bio_hash,
            created_at: self.created_at,
            paused: self.paused,
            vault_name_hash: self.vault_name_hash,
            vault_symbol_hash: self.vault_symbol_hash,
            vault_decimals: self.vault_decimals,
            username_limit: self.username_limit,
            bio_limit: self.bio_limit,
            initialized: self.initialized,
            protocol_allocations: self.protocol_allocations.entries(),
            protocol_addresses: self.protocol_addresses.entries(),
        }
    }

    /// The vault that plain values stand for; `None` where they stand for
    /// no sound vault.
    pub fn restore(state: VaultState) -> (r: Option<UserVault>)
        ensures
            match r {
                Some(v) => state.restorable() && v.wf() && v@ == state@,
                None => !state.restorable(),
            },
    {
        let balances = match Table::from_entries(&state.balances) {
            Some(t) => t,
            None => {
                return None;
            },
        };
        let allowances = match Table::from_entries(&state.allowances) {
            Some(t) => t,
            None => {
                return None;
            },
        };
        let protocol_allocations = match Table::from_entries(&state.protocol_allocations) {
            Some(t) => t,
            None => {
                return None;
            },
        };
        let protocol_addresses = match Table::from_entries(&state.protocol_addresses) {
            Some(t) => t,
            None => {
                return None;
            },
        };
        if !protocol_allocations.all_at_most(&state.total_assets) {
            proof {
                if state@.allocations_covered() {
                    assert forall|id: Seq<char>| #[trigger]
                        amount_of(amounts(protocol_allocations@), id) <= state.total_assets@ by {
                        assert(state@.allocation(id) <= state.total_assets@);
                    }
                }
            }
            return None;
        }
        let sum = match sum_entries(&state.balances) {
            Some(s) => s,
            None => {
                proof {
                    state.total_supply.lemma_in_range();
                }
                return None;
            },
        };
        if sum != state.total_supply {
            proof {
                sum.lemma_view_injective(state.total_supply);
            }
            return None;
        }
        proof {
            lemma_assoc_of_total(state.balances@);
            state.total_supply.lemma_in_range();
            state.total_assets.lemma_in_range();
        }
        Some(
            UserVault {
                owner: state.owner,
                asset: state.asset,
                factory: state.factory,
                total_assets: state.total_assets,
                total_supply: state.total_supply,
                balances,
                allowances,
                username_hash: state.username_hash,
                bio_hash: state.bio_hash,
                created_at: state.created_at,
                paused: state.paused,
                vault_name_hash: state.vault_name_hash,
                vault_symbol_hash: state.vault_symbol_hash,
                vault_decimals: state.vault_decimals,
                username_limit: state.username_limit,
                bio_limit: state.bio_limit,
                initialized: state.initialized,
                protocol_allocations,
                protocol_addresses,
            },
        )
    }

    /// Deposits assets and mints the shares they buy to the caller.
    pub fn deposit(&mut self, caller: Address, amount: U256) -> (r: Result<U256, VaultError>)
        requires
            old(self).wf(),
        ensures
            final(self).wf(),
            match old(self)@.deposit(caller, amount@) {
                Ok((next, shares)) => final(self)@ == next && (r matches Ok(s) && s@ == shares),
                Err(e) => *final(self) == *old(self) && (r matches Err(x) && x@ == e),
            },
    {
        if self.paused {
            return Err(Failure::Paused);
        }
        if amount.is_zero() {
            return Err(Failure::InvalidAmount);
        }
        if !self.total_supply.is_zero() && self.total_assets.is_zero() {
            return Err(Failure::EmptyPool);
        }
        let shares = match self._calculate_shares(amount) {
            Ok(s) => s,
            Err(e) => {
                return Err(e);
            },
        };
        let new_assets = match self.total_assets.checked_add(amount) {
            Some(x) => x,
            None => {
                return Err(Failure::Overflow);
            },
        };
        let new_supply = match self.total_supply.checked_add(shares) {
            Some(x) => x,
            None => {
                return Err(Failure::Overflow);
            },
        };
        let balance = self.balances.amount(&caller);
        proof {
            lemma_total_bounds(self@.balances, caller);
            lemma_deposit_conserves(self@, caller, amount@);
            lemma_amounts_insert(self.balances@, caller, balance);
        }
        let new_balance = balance.checked_add(shares).unwrap();
        proof {
            lemma_amounts_insert(self.balances@, caller, new_balance);
        }
        self.balances.insert(caller, new_balance);
        self.total_assets = new_assets;
        self.total_supply = new_supply;
        proof {
            lemma_allocations_stay_covered(
                old(self)@,
                caller,
                caller,
                amount@,
                Seq::empty(),
                Failure::Overflow,
            );
        }
        Ok(shares)
    }

    /// The shares that a deposit of `assets` would mint.
    fn _calculate_shares(&self, assets: U256) -> (r: Result<U256, VaultError>)
        ensures
            match self@.convert_to_shares(assets@) {
                Ok(shares) => r matches Ok(s) && s@ == shares,
                Err(e) => r matches Err(x) && x@ == e,
            },
    {
        quote_shares(assets, self.total_assets, self.total_supply)
    }

    /// The assets that `shares` stand for.
    fn _calculate_assets(&self, shares: U256) -> (r: Result<U256, VaultError>)
        ensures
            match self@.convert_to_assets(shares@) {
                Ok(assets) => r matches Ok(a) && a@ == assets,
                Err(e) => r matches Err(x) && x@ == e,
            },
    {
        quote_assets(shares, self.total_assets, self.total_supply)
    }

    /// Withdraws assets and burns the caller's shares for them.
    pub fn withdraw(&mut self, caller: Address, amount: U256) -> (r: Result<U256, VaultError>)
        requires
            old(self).wf(),
        ensures
            final(self).wf(),
            match old(self)@.withdraw(caller, amount@) {
                Ok((next, shares)) => final(self)@ == next && (r matches Ok(s) && s@ == shares),
                Err(e) => *final(self) == *old(self) && (r matches Err(x) && x@ == e),
            },
    {
        if self.paused {
            return Err(Failure::Paused);
        }
        if amount.is_zero() {
            return Err(Failure::InvalidAmount);
        }
        let balance = self.balances.amount(&caller);
        if balance.is_zero() {
            return Err(Failure::NoShares);
        }
        let shares = match self._calculate_shares(amount) {
            Ok(s) => s,
            Err(e) => {
                return Err(e);
            },
        };
        if shares.gt(&balance) {
            return Err(Failure::InsufficientShares { have: balance, want: shares });
        }
        let new_assets = match self.total_assets.checked_sub(amount) {
            Some(x) => x,
            None => {
                return Err(Failure::InsufficientAssets { have: self.total_assets, want: amount });
            },
        };
        if !self.protocol_allocations.all_at_most(&new_assets) {
            proof {
                if self@.covers(new_assets@) {
                    assert forall|id: Seq<char>| #[trigger]
                        amount_of(amounts(self.protocol_allocations@), id) <= new_assets@ by {
                        assert(self@.allocation(id) <= new_assets@);
                    }
                }
            }
            return Err(Failure::AssetsAllocated);
        }
        proof {
            lemma_total_bounds(self@.balances, caller);
            lemma_withdraw_conserves(self@, caller, amount@);
            lemma_allocations_stay_covered(
                self@,
                caller,
                caller,
                amount@,
                Seq::empty(),
                Failure::Overflow,
            );
        }
        let new_balance = balance.checked_sub(shares).unwrap();
        let new_supply = self.total_supply.checked_sub(shares).unwrap();
        proof {
            lemma_amounts_insert(self.balances@, caller, new_balance);
        }
        self.balances.insert(caller, new_balance);
        self.total_assets = new_assets;
        self.total_supply = new_supply;
        Ok(shares)
    }

    /// Mints exactly `shares` shares to `receiver`, for the assets they
    /// stand for.
    pub fn mint(&mut self, shares: U256, receiver: Address) -> (r: Result<U256, VaultError>)
        requires
            old(self).wf(),
        ensures
            final(self).wf(),
            match old(self)@.mint(shares@, receiver) {
                Ok((next, assets)) => final(self)@ == next && (r matches Ok(a) && a@ == assets),
                Err(e) => *final(self) == *old(self) && (r matches Err(x) && x@ == e),
            },
    {
        if self.paused {
            return Err(Failure::Paused);
        }
        if shares.is_zero() {
            return Err(Failure::InvalidAmount);
        }
        let assets = match self._calculate_assets(shares) {
            Ok(a) => a,
            Err(e) => {
                return Err(e);
            },
        };
        let new_assets = match self.total_assets.checked_add(assets) {
            Some(x) => x,
            None => {
                return Err(Failure::Overflow);
            },
        };
        let new_supply = match self.total_supply.checked_add(shares) {
            Some(x) => x,
            None => {
                return Err(Failure::Overflow);
            },
        };
        let balance = self.balances.amount(&receiver);
        proof {
            lemma_total_bounds(self@.balances, receiver);
            lemma_mint_conserves(self@, shares@, receiver);
        }
        let new_balance = balance.checked_add(shares).unwrap();
        proof {
            lemma_amounts_insert(self.balances@, receiver, new_balance);
        }
        self.balances.insert(receiver, new_balance);
        self.total_assets = new_assets;
        self.total_supply = new_supply;
        proof {
            lemma_allocations_stay_covered(
                old(self)@,
                receiver,
                receiver,
                shares@,
                Seq::empty(),
                Failure::Overflow,
            );
        }
        Ok(assets)
    }

    /// Burns exactly `shares` shares of `owner`, for the assets they stand
    /// for, which are due to `receiver`.
    pub fn redeem(&mut self, shares: U256, receiver: Address, owner: Address) -> (r: Result<
        U256,
        VaultError,
    >)
        requires
            old(self).wf(),
        ensures
            final(self).wf(),
            match old(self)@.redeem(shares@, owner) {
                Ok((next, assets)) => final(self)@ == next && (r matches Ok(a) && a@ == assets),
                Err(e) => *final(self) == *old(self) && (r matches Err(x) && x@ == e),
            },
    {
        if self.paused {
            return Err(Failure::Paused);
        }
        if shares.is_zero() {
            return Err(Failure::InvalidAmount);
        }
        let balance = self.balances.amount(&owner);
        if shares.gt(&balance) {
            return Err(Failure::InsufficientShares { have: balance, want: shares });
        }
        let assets = match self._calculate_assets(shares) {
            Ok(a) => a,
            Err(e) => {
                return Err(e);
            },
        };
        proof {
            lemma_total_bounds(self@.balances, owner);
            lemma_assets_for_bounded(shares@, self@.total_assets, self@.total_supply);
        }
        let new_assets = self.total_assets.checked_sub(assets).unwrap();
        if !self.protocol_allocations.all_at_most(&new_assets) {
            proof {
                if self@.covers(new_assets@) {
                    assert forall|id: Seq<char>| #[trigger]
                        amount_of(amounts(self.protocol_allocations@), id) <= new_assets@ by {
                        assert(self@.allocation(id) <= new_assets@);
                    }
                }
            }
            return Err(Failure::AssetsAllocated);
        }
        proof {
            lemma_redeem_conserves(self@, shares@, owner);
            lemma_allocations_stay_covered(
                self@,
                owner,
                owner,
                shares@,
                Seq::empty(),
                Failure::Overflow,
            );
        }
        let new_balance = balance.checked_sub(shares).unwrap();
        let new_supply = self.total_supply.checked_sub(shares).unwrap();
        proof {
            lemma_amounts_insert(self.balances@, owner, new_balance);
        }
        self.balances.insert(owner, new_balance);
        self.total_assets = new_assets;
        self.total_supply = new_supply;
        Ok(assets)
    }

    /// Moves `amount` shares from `from` to `to`.
    fn _transfer_shares(&mut self, from: Address, to: Address, amount: U256) -> (r: Result<
        (),
        VaultError,
    >)
        requires
            old(self).wf(),
        ensures
            final(self).wf(),
            match old(self)@.transfer_shares(from, to, amount@) {
                Ok(next) => final(self)@ == next && r.is_ok(),
                Err(e) => *final(self) == *old(self) && (r matches Err(x) && x@ == e),
            },
    {
        if from == to {
            return Ok(());
        }
        let from_balance = self.balances.amount(&from);
        if from_balance.lt(&amount) {
            return Err(Failure::InsufficientBalance { have: from_balance, want: amount });
        }
        let to_balance = self.balances.amount(&to);
        proof {
            lemma_total_bounds_pair(self@.balances, from, to);
            lemma_transfer_conserves(self@, from, to, amount@);
        }
        let new_from = from_balance.checked_sub(amount).unwrap();
        let new_to = to_balance.checked_add(amount).unwrap();
        proof {
            lemma_amounts_insert(self.balances@, from, new_from);
            lemma_amounts_insert(self.balances@.insert(from, new_from), to, new_to);
        }
        self.balances.insert(from, new_from);
        self.balances.insert(to, new_to);
        proof {
            lemma_covered_frame(old(self)@, self@);
        }
        Ok(())
    }

    /// Moves `amount` of the caller's shares to `to`.
    pub fn transfer(&mut self, caller: Address, to: Address, amount: U256) -> (r: Result<
        bool,
        VaultError,
    >)
        requires
            old(self).wf(),
        ensures
            final(self).wf(),
            match old(self)@.transfer_shares(caller, to, amount@) {
                Ok(next) => final(self)@ == next && r == Ok::<bool, VaultError>(true),
                Err(e) => *final(self) == *old(self) && (r matches Err(x) && x@ == e),
            },
    {
        match self._transfer_shares(caller, to, amount) {
            Ok(()) => Ok(true),
            Err(e) => Err(e),
        }
    }

    /// Moves `amount` shares from `from` to `to` on the caller's allowance.
    pub fn transfer_from(&mut self, caller: Address, from: Address, to: Address, amount: U256) -> (r:
        Result<bool, VaultError>)
        requires
            old(self).wf(),
        ensures
            final(self).wf(),
            match old(self)@.transfer_from(caller, from, to, amount@) {
                Ok(next) => final(self)@ == next && r == Ok::<bool, VaultError>(true),
                Err(e) => *final(self) == *old(self) && (r matches Err(x) && x@ == e),
            },
    {
        let allowance = self.allowances.amount(&(from, caller));
        if allowance.lt(&amount) {
            return Err(Failure::InsufficientAllowance { have: allowance, want: amount });
        }
        match self._transfer_shares(from, to, amount) {
            Ok(()) => {},
            Err(e) => {
                return Err(e);
            },
        }
        let new_allowance = allowance.checked_sub(amount).unwrap();
        proof {
            lemma_amounts_insert(self.allowances@, (from, caller), new_allowance);
        }
        self.allowances.insert((from, caller), new_allowance);
        proof {
            lemma_covered_frame(old(self)@, self@);
        }
        Ok(true)
    }

    /// Sets the allowance that the caller gives `spender`.
    pub fn approve(&mut self, caller: Address, spender: Address, amount: U256) -> (r: Result<
        bool,
        VaultError,
    >)
        requires
            old(self).wf(),
        ensures
            final(self).wf(),
            final(self)@ == old(self)@.approve(caller, spender, amount@),
            r == Ok::<bool, VaultError>(true),
    {
        proof {
            lemma_amounts_insert(self.allowances@, (caller, spender), amount);
        }
        self.allowances.insert((caller, spender), amount);
        proof {
            lemma_covered_frame(old(self)@, self@);
        }
        Ok(true)
    }

    /// Pauses the vault. Only its owner may.
    pub fn pause(&mut self, caller: Address) -> (r: Result<(), VaultError>)
        requires
            old(self).wf(),
        ensures
            final(self).wf(),
            match old(self)@.set_paused(caller, true) {
                Ok(next) => final(self)@ == next && r.is_ok(),
                Err(e) => *final(self) == *old(self) && (r matches Err(x) && x@ == e),
            },
    {
        if caller != self.owner {
            return Err(Failure::NotOwner);
        }
        self.paused = true;
        proof {
            lemma_covered_frame(old(self)@, self@);
        }
        Ok(())
    }

    /// Lifts the pause. Only the vault's owner may.
    pub fn unpause(&mut self, caller: Address) -> (r: Result<(), VaultError>)
        requires
            old(self).wf(),
        ensures
            final(self).wf(),
            match old(self)@.set_paused(caller, false) {
                Ok(next) => final(self)@ == next && r.is_ok(),
                Err(e) => *final(self) == *old(self) && (r matches Err(x) && x@ == e),
            },
    {
        if caller != self.owner {
            return Err(Failure::NotOwner);
        }
        self.paused = false;
        proof {
            lemma_covered_frame(old(self)@, self@);
        }
        Ok(())
    }

    /// Records how much of the pool the owner earmarks for a venue.
    pub fn set_protocol_allocation(&mut self, caller: Address, protocol: String, amount: U256) -> (r:
        Result<(), VaultError>)
        requires
            old(self).wf(),
        ensures
            final(self).wf(),
            match old(self)@.set_protocol_allocation(caller, protocol@, amount@) {
                Ok(next) => final(self)@ == next && r.is_ok(),
                Err(e) => *final(self) == *old(self) && (r matches Err(x) && x@ == e),
            },
    {
        let ghost old_name = protocol@;
        if caller != self.owner {
            return Err(Failure::NotOwner);
        }
        if amount.gt(&self.total_assets) {
            return Err(Failure::InsufficientAssets { have: self.total_assets, want: amount });
        }
        proof {
            lemma_amounts_insert(self.protocol_allocations@, protocol@, amount);
        }
        self.protocol_allocations.insert(protocol, amount);
        proof {
            lemma_allocations_stay_covered(
                old(self)@,
                caller,
                caller,
                amount@,
                old_name,
                Failure::Overflow,
            );
        }
        Ok(())
    }

    /// Earmarks `amount` assets for the venue `protocol`, which must have
    /// an address; `unset` is the refusal where it has none.
    fn deploy(&mut self, caller: Address, protocol: &str, amount: U256, unset: VaultError) -> (r:
        Result<(), VaultError>)
        requires
            old(self).wf(),
        ensures
            final(self).wf(),
            match old(self)@.deploy(caller, protocol@, amount@, unset@) {
                Ok(next) => final(self)@ == next && r.is_ok(),
                Err(e) => *final(self) == *old(self) && (r matches Err(x) && x@ == e),
            },
    {
        if caller != self.owner {
            return Err(Failure::NotOwner);
        }
        if self.paused {
            return Err(Failure::Paused);
        }
        if amount.gt(&self.total_assets) {
            return Err(Failure::InsufficientAssets { have: self.total_assets, want: amount });
        }
        let venue = self.venue(protocol);
        if venue.is_zero() {
            return Err(unset);
        }
        proof {
            lemma_amounts_insert(self.protocol_allocations@, protocol@, amount);
        }
        self.protocol_allocations.insert(protocol.to_owned(), amount);
        proof {
            lemma_allocations_stay_covered(
                old(self)@,
                caller,
                caller,
                amount@,
                protocol@,
                unset@,
            );
        }
        Ok(())
    }

    /// The address recorded for the venue `protocol`, zero where none is.
    fn venue(&self, protocol: &str) -> (a: Address)
        requires
            self.stored(),
        ensures
            a == self@.protocol_address(protocol@),
    {
        let key = protocol.to_owned();
        match self.protocol_addresses.get(&key) {
            Some(a) => *a,
            None => Address::zero(),
        }
    }

    /// Earmarks `amount` assets for the Aave venue. What is sent to the
    /// venue is for the caller to send once this has succeeded.
    pub fn deploy_to_aave(&mut self, caller: Address, amount: U256) -> (r: Result<(), VaultError>)
        requires
            old(self).wf(),
        ensures
            final(self).wf(),
            match old(self)@.deploy(caller, "aave"@, amount@, Failure::AaveNotSet) {
                Ok(next) => final(self)@ == next && r.is_ok(),
                Err(e) => *final(self) == *old(self) && (r matches Err(x) && x@ == e),
            },
    {
        self.deploy(caller, "aave", amount, Failure::AaveNotSet)
    }

    /// Earmarks `amount` assets for the Compound venue. What is sent to the
    /// venue is for the caller to send once this has succeeded.
    pub fn deploy_to_compound(&mut self, caller: Address, amount: U256) -> (r: Result<
        (),
        VaultError,
    >)
        requires
            old(self).wf(),
        ensures
            final(self).wf(),
            match old(self)@.deploy(caller, "compound"@, amount@, Failure::CompoundNotSet) {
                Ok(next) => final(self)@ == next && r.is_ok(),
                Err(e) => *final(self) == *old(self) && (r matches Err(x) && x@ == e),
            },
    {
        self.deploy(caller, "compound", amount, Failure::CompoundNotSet)
    }

    /// Collects the rewards of a venue: there are none to collect.
    pub fn harvest_from_protocol(&mut self, caller: Address, protocol: String) -> (r: Result<
        U256,
        VaultError,
    >)
        requires
            old(self).wf(),
        ensures
            *final(self) == *old(self),
            match old(self)@.harvest(caller, protocol@) {
                Ok(rewards) => r matches Ok(x) && x@ == rewards,
                Err(e) => r matches Err(x) && x@ == e,
            },
    {
        if caller != self.owner {
            return Err(Failure::NotOwner);
        }
        let venue = self.venue(protocol.as_str());
        if venue.is_zero() {
            return Err(Failure::ProtocolNotSet);
        }
        Ok(U256::zero())
    }

    /// Records the venue addresses that the vault starts with: none is
    /// known, so each of the four venues reads as the zero address.
    fn _cache_protocol_addresses(&mut self)
        requires
            old(self).wf(),
        ensures
            final(self).wf(),
            final(self)@ == old(self)@.cached_protocol_addresses(),
    {
        self.protocol_addresses.insert("aave".to_owned(), Address::zero());
        self.protocol_addresses.insert("compound".to_owned(), Address::zero());
        self.protocol_addresses.insert("uniswap".to_owned(), Address::zero());
        self.protocol_addresses.insert("weth".to_owned(), Address::zero());
        proof {
            lemma_covered_frame(old(self)@, self@);
        }
    }

    /// Sets the vault up from commitments to its texts: once only, and with
    /// three principals that are not zero.
    pub fn initialize_hashed(
        &mut self,
        owner: Address,
        asset: Address,
        factory: Address,
        username_hash: [u8; 32],
        bio_hash: [u8; 32],
        vault_name_hash: [u8; 32],
        vault_symbol_hash: [u8; 32],
        vault_decimals: u8,
        username_limit: U256,
        bio_limit: U256,
        timestamp: u64,
    ) -> (r: Result<(), VaultError>)
        requires
            old(self).wf(),
        ensures
            final(self).wf(),
            match old(self)@.initialize_hashed(
                owner,
                asset,
                factory,
                username_hash@,
                bio_hash@,
                vault_name_hash@,
                vault_symbol_hash@,
                vault_decimals,
                username_limit@,
                bio_limit@,
                timestamp,
            ) {
                Ok(next) => final(self)@ == next && r.is_ok(),
                Err(e) => *final(self) == *old(self) && (r matches Err(x) && x@ == e),
            },
    {
        if owner.is_zero() || asset.is_zero() || factory.is_zero() {
            return Err(Failure::InvalidAddress);
        }
        if self.initialized {
            return Err(Failure::AlreadyInitialized);
        }
        self.owner = owner;
        self.asset = asset;
        self.factory = factory;
        self.vault_name_hash = vault_name_hash;
        self.vault_symbol_hash = vault_symbol_hash;
        self.vault_decimals = vault_decimals;
        self.username_limit = username_limit;
        self.bio_limit = bio_limit;
        self.username_hash = username_hash;
        self.bio_hash = bio_hash;
        self.created_at = U256::from_u64(timestamp);
        self.paused = false;
        self.initialized = true;
        proof {
            lemma_covered_frame(old(self)@, self@);
        }
        self._cache_protocol_addresses();
        proof {
            lemma_covered_frame(old(self)@, self@);
        }
        Ok(())
    }

    /// Sets the vault up: once only, with three principals that are not
    /// zero and a username and a bio within their limits. Of the four texts
    /// only commitments are kept.
    pub fn initialize(
        &mut self,
        owner: Address,
        asset: Address,
        factory: Address,
        username: String,
        bio: String,
        vault_name: String,
        vault_symbol: String,
        vault_decimals: u8,
        username_limit: U256,
        bio_limit: U256,
        timestamp: u64,
    ) -> (r: Result<(), VaultError>)
        requires
            old(self).wf(),
        ensures
            final(self).wf(),
            match old(self)@.initialize(
                owner,
                asset,
                factory,
                username@,
                bio@,
                vault_name@,
                vault_symbol@,
                vault_decimals,
                username_limit@,
                bio_limit@,
                timestamp,
            ) {
                Ok(next) => final(self)@ == next && r.is_ok(),
                Err(e) => *final(self) == *old(self) && (r matches Err(x) && x@ == e),
            },
    {
        if owner.is_zero() || asset.is_zero() || factory.is_zero() {
            return Err(Failure::InvalidAddress);
        }
        if self.initialized {
            return Err(Failure::AlreadyInitialized);
        }
        if over_limit(username.as_str().as_bytes().len(), &username_limit) {
            return Err(Failure::UsernameTooLong);
        }
        if over_limit(bio.as_str().as_bytes().len(), &bio_limit) {
            return Err(Failure::BioTooLong);
        }
        let vault_name_hash = hash_string(vault_name.as_str());
        let vault_symbol_hash = hash_string(vault_symbol.as_str());
        let username_hash = hash_string(username.as_str());
        let bio_hash = hash_string(bio.as_str());
        self.initialize_hashed(
            owner,
            asset,
            factory,
            username_hash,
            bio_hash,
            vault_name_hash,
            vault_symbol_hash,
            vault_decimals,
            username_limit,
            bio_limit,
            timestamp,
        )
    }

    /// Replaces the commitment to the vault's name. Only the owner may.
    pub fn set_vault_name_hash(&mut self, caller: Address, hash: [u8; 32]) -> (r: Result<
        (),
        VaultError,
    >)
        requires
            old(self).wf(),
        ensures
            final(self).wf(),
            match old(self)@.set_vault_name_hash(caller, hash@) {
                Ok(next) => final(self)@ == next && r.is_ok(),
                Err(e) => *final(self) == *old(self) && (r matches Err(x) && x@ == e),
            },
    {
        if caller != self.owner {
            return Err(Failure::NotOwner);
        }
        self.vault_name_hash = hash;
        proof {
            lemma_covered_frame(old(self)@, self@);
        }
        Ok(())
    }

    /// Renames the vault; only a commitment to the name is kept. Only the
    /// owner may.
    pub fn set_vault_name(&mut self, caller: Address, new_name: String) -> (r: Result<
        (),
        VaultError,
    >)
        requires
            old(self).wf(),
        ensures
            final(self).wf(),
            match old(self)@.set_vault_name_hash(caller, keccak256(encode_utf8(new_name@))) {
                Ok(next) => final(self)@ == next && r.is_ok(),
                Err(e) => *final(self) == *old(self) && (r matches Err(x) && x@ == e),
            },
    {
        let hash = hash_string(new_name.as_str());
        self.set_vault_name_hash(caller, hash)
    }

    /// Replaces the commitment to the vault's symbol. Only the owner may.
    pub fn set_vault_symbol_hash(&mut self, caller: Address, hash: [u8; 32]) -> (r: Result<
        (),
        VaultError,
    >)
        requires
            old(self).wf(),
        ensures
            final(self).wf(),
            match old(self)@.set_vault_symbol_hash(caller, hash@) {
                Ok(next) => final(self)@ == next && r.is_ok(),
                Err(e) => *final(self) == *old(self) && (r matches Err(x) && x@ == e),
            },
    {
        if caller != self.owner {
            return Err(Failure::NotOwner);
        }
        self.vault_symbol_hash = hash;
        proof {
            lemma_covered_frame(old(self)@, self@);
        }
        Ok(())
    }

    /// Changes the vault's symbol; only a commitment to it is kept. Only
    /// the owner may.
    pub fn set_vault_symbol(&mut self, caller: Address, new_symbol: String) -> (r: Result<
        (),
        VaultError,
    >)
        requires
            old(self).wf(),
        ensures
            final(self).wf(),
            match old(self)@.set_vault_symbol_hash(caller, keccak256(encode_utf8(new_symbol@))) {
                Ok(next) => final(self)@ == next && r.is_ok(),
                Err(e) => *final(self) == *old(self) && (r matches Err(x) && x@ == e),
            },
    {
        let hash = hash_string(new_symbol.as_str());
        self.set_vault_symbol_hash(caller, hash)
    }

    /// Changes the number of decimals of the share. Only the owner may.
    pub fn set_vault_decimals(&mut self, caller: Address, new_decimals: u8) -> (r: Result<
        (),
        VaultError,
    >)
        requires
            old(self).wf(),
        ensures
            final(self).wf(),
            match old(self)@.set_vault_decimals(caller, new_decimals) {
                Ok(next) => final(self)@ == next && r.is_ok(),
                Err(e) => *final(self) == *old(self) && (r matches Err(x) && x@ == e),
            },
    {
        if caller != self.owner {
            return Err(Failure::NotOwner);
        }
        self.vault_decimals = new_decimals;
        proof {
            lemma_covered_frame(old(self)@, self@);
        }
        Ok(())
    }

    /// The owner, the asset, the factory, the total assets, the total
    /// supply, the two commitments of the owner's profile, the time of
    /// setup and whether the vault is paused.
    pub fn get_vault_info(&self) -> (r: Result<
        (Address, Address, Address, U256, U256, [u8; 32], [u8; 32], U256, bool),
        VaultError,
    >)
        ensures
            r matches Ok(info) && info.0 == self@.owner && info.1 == self@.asset && info.2
                == self@.factory && info.3@ == self@.total_assets && info.4@
                == self@.total_supply && info.5@ == self@.username_hash && info.6@
                == self@.bio_hash && info.7@ == self@.created_at && info.8 == self@.paused,
    {
        Ok(
            (
                self.owner,
                self.asset,
                self.factory,
                self.total_assets,
                self.total_supply,
                self.username_hash,
                self.bio_hash,
                self.created_at,
                self.paused,
            ),
        )
    }

    /// The shares that `user` holds.
    pub fn balance_of(&self, user: Address) -> (r: Result<U256, VaultError>)
        requires
            self.wf(),
        ensures
            r matches Ok(b) && b@ == self@.balance_of(user),
    {
        Ok(self.balances.amount(&user))
    }

    /// The asset that the vault holds.
    pub fn asset(&self) -> (r: Result<Address, VaultError>)
        ensures
            r == Ok::<Address, VaultError>(self@.asset),
    {
        Ok(self.asset)
    }

    /// The vault's owner.
    pub fn owner(&self) -> (a: Address)
        ensures
            a == self@.owner,
    {
        self.owner
    }

    pub fn is_paused(&self) -> (p: bool)
        ensures
            p == self@.paused,
    {
        self.paused
    }

    pub fn is_initialized(&self) -> (i: bool)
        ensures
            i == self@.initialized,
    {
        self.initialized
    }

    /// The assets that the pool holds.
    pub fn total_assets(&self) -> (r: Result<U256, VaultError>)
        ensures
            r matches Ok(t) && t@ == self@.total_assets,
    {
        Ok(self.total_assets)
    }

    /// The shares that a deposit of `assets` would mint.
    pub fn convert_to_shares(&self, assets: U256) -> (r: Result<U256, VaultError>)
        ensures
            match self@.convert_to_shares(assets@) {
                Ok(shares) => r matches Ok(s) && s@ == shares,
                Err(e) => r matches Err(x) && x@ == e,
            },
    {
        self._calculate_shares(assets)
    }

    /// The assets that `shares` stand for.
    pub fn convert_to_assets(&self, shares: U256) -> (r: Result<U256, VaultError>)
        ensures
            match self@.convert_to_assets(shares@) {
                Ok(assets) => r matches Ok(a) && a@ == assets,
                Err(e) => r matches Err(x) && x@ == e,
            },
    {
        self._calculate_assets(shares)
    }

    /// The most that can be deposited for a receiver: the largest number.
    pub fn max_deposit(&self, _receiver: Address) -> (r: Result<U256, VaultError>)
        ensures
            r matches Ok(m) && m@ == pow2_256() - 1,
    {
        Ok(U256::max_value())
    }

    /// The most that can be minted for a receiver: the largest number.
    pub fn max_mint(&self, _receiver: Address) -> (r: Result<U256, VaultError>)
        ensures
            r matches Ok(m) && m@ == pow2_256() - 1,
    {
        Ok(U256::max_value())
    }

    /// The assets that all the shares of `owner` stand for.
    pub fn max_withdraw(&self, owner: Address) -> (r: Result<U256, VaultError>)
        requires
            self.wf(),
        ensures
            match self@.convert_to_assets(self@.balance_of(owner)) {
                Ok(assets) => r matches Ok(a) && a@ == assets,
                Err(e) => r matches Err(x) && x@ == e,
            },
    {
        let shares = self.balances.amount(&owner);
        self._calculate_assets(shares)
    }

    /// The shares that `owner` could redeem: all it holds.
    pub fn max_redeem(&self, owner: Address) -> (r: Result<U256, VaultError>)
        requires
            self.wf(),
        ensures
            r matches Ok(b) && b@ == self@.balance_of(owner),
    {
        Ok(self.balances.amount(&owner))
    }

    /// The name of the share.
    pub fn name(&self) -> (r: Result<String, VaultError>)
        ensures
            r matches Ok(s) && s@ == "Vault Shares"@,
    {
        Ok("Vault Shares".to_owned())
    }

    /// The symbol of the share.
    pub fn symbol(&self) -> (r: Result<String, VaultError>)
        ensures
            r matches Ok(s) && s@ == "VS"@,
    {
        Ok("VS".to_owned())
    }

    /// The number of decimals of the share.
    pub fn decimals(&self) -> (r: Result<u8, VaultError>)
        ensures
            r == Ok::<u8, VaultError>(self@.vault_decimals),
    {
        Ok(self.vault_decimals)
    }

    /// The shares outstanding.
    pub fn total_supply(&self) -> (r: Result<U256, VaultError>)
        ensures
            r matches Ok(t) && t@ == self@.total_supply,
    {
        Ok(self.total_supply)
    }

    /// The shares that `spender` may still move for `owner`.
    pub fn allowance(&self, owner: Address, spender: Address) -> (r: Result<U256, VaultError>)
        requires
            self.wf(),
        ensures
            r matches Ok(a) && a@ == self@.allowance(owner, spender),
    {
        Ok(self.allowances.amount(&(owner, spender)))
    }

    /// The assets earmarked for the venue `protocol`.
    pub fn get_protocol_allocation(&self, protocol: String) -> (r: Result<U256, VaultError>)
        requires
            self.wf(),
        ensures
            r matches Ok(a) && a@ == self@.allocation(protocol@),
    {
        Ok(self.protocol_allocations.amount(&protocol))
    }

    /// The address recorded for the venue `protocol`, zero where none is.
    pub fn get_protocol_address(&self, protocol: String) -> (r: Result<Address, VaultError>)
        requires
            self.wf(),
        ensures
            r == Ok::<Address, VaultError>(self@.protocol_address(protocol@)),
    {
        Ok(self.venue(protocol.as_str()))
    }

    /// The allocation bound: in every sound vault no venue is earmarked more
    /// than the pool holds.
    pub proof fn lemma_allocation_bound(&self, protocol: Seq<char>)
        requires
            self.wf(),
        ensures
            self@.allocation(protocol) <= self@.total_assets,
    {
    }

    /// Conservation: in every sound vault the shares outstanding are the sum
    /// of all balances, no balance exceeds them, and both totals fit in 256
    /// bits.
    pub proof fn lemma_conservation(&self, account: Address)
        requires
            self.wf(),
        ensures
            self@.total_supply == total(self@.balances),
            self@.balance_of(account) <= self@.total_supply,
            0 <= self@.total_assets < pow2_256(),
            self@.total_supply < pow2_256(),
    {
        lemma_total_bounds(self@.balances, account);
    }
}

} // verus!
