//! The vault as mathematics: its state as numbers and maps, each operation as
//! a function from state to the next state or a refusal, and the laws that
//! hold of those functions.

use vstd::prelude::*;
use vstd::utf8::encode_utf8;
use crate::address::Address;
use crate::error::Failure;
use crate::hash::keccak256;
use crate::sum::{amount_of, lemma_total_bounds, lemma_total_bounds_pair, lemma_total_insert, total};
use crate::uint::pow2_256;

verus! {

/// The shares that `assets` buy from a pool of `total_assets` with
/// `total_supply` shares outstanding: one for one while no shares exist,
/// none from a pool without assets, else the pool's ratio rounded down.
pub open spec fn shares_for(assets: nat, total_assets: nat, total_supply: nat) -> nat {
    if total_supply == 0 {
        assets
    } else if total_assets == 0 {
        0
    } else {
        assets * total_supply / total_assets
    }
}

/// The assets that `shares` stand for in a pool of `total_assets` with
/// `total_supply` shares outstanding: none while no shares exist, else the
/// pool's ratio rounded down.
pub open spec fn assets_for(shares: nat, total_assets: nat, total_supply: nat) -> nat {
    if total_supply == 0 {
        0
    } else {
        shares * total_assets / total_supply
    }
}

/// The state of one vault.
pub struct VaultView {
    pub owner: Address,
    pub asset: Address,
    pub factory: Address,
    pub total_assets: nat,
    pub total_supply: nat,
    /// Shares held, by account. An account that is not bound holds none.
    pub balances: Map<Address, nat>,
    /// Spending ceilings, by owner and spender. A pair that is not bound
    /// has none.
    pub allowances: Map<(Address, Address), nat>,
    pub username_hash: Seq<u8>,
    pub bio_hash: Seq<u8>,
    pub created_at: nat,
    pub paused: bool,
    pub vault_name_hash: Seq<u8>,
    pub vault_symbol_hash: Seq<u8>,
    pub vault_decimals: u8,
    pub username_limit: nat,
    pub bio_limit: nat,
    pub initialized: bool,
    /// Assets earmarked for outside venues, by venue name.
    pub protocol_allocations: Map<Seq<char>, nat>,
    /// Venue addresses, by venue name. A name that is not bound reads as
    /// the zero address.
    pub protocol_addresses: Map<Seq<char>, Address>,
}

impl VaultView {
    /// The state of a vault that nothing has been done to.
    pub open spec fn blank() -> VaultView {
        VaultView {
            owner: Address::zero(),
            asset: Address::zero(),
            factory: Address::zero(),
            total_assets: 0,
            total_supply: 0,
            balances: Map::empty(),
            allowances: Map::empty(),
            username_hash: Seq::new(32, |i: int| 0u8),
            bio_hash: Seq::new(32, |i: int| 0u8),
            created_at: 0,
            paused: false,
            vault_name_hash: Seq::new(32, |i: int| 0u8),
            vault_symbol_hash: Seq::new(32, |i: int| 0u8),
            vault_decimals: 0,
            username_limit: 0,
            bio_limit: 0,
            initialized: false,
            protocol_allocations: Map::empty(),
            protocol_addresses: Map::empty(),
        }
    }

    pub open spec fn balance_of(self, account: Address) -> nat {
        amount_of(self.balances, account)
    }

    pub open spec fn allowance(self, owner: Address, spender: Address) -> nat {
        amount_of(self.allowances, (owner, spender))
    }

    pub open spec fn allocation(self, protocol: Seq<char>) -> nat {
        amount_of(self.protocol_allocations, protocol)
    }

    pub open spec fn protocol_address(self, protocol: Seq<char>) -> Address {
        if self.protocol_addresses.contains_key(protocol) {
            self.protocol_addresses[protocol]
        } else {
            Address::zero()
        }
    }

    /// Conservation: the shares outstanding are the sum of all balances, and
    /// both totals fit in 256 bits.
    pub open spec fn conserved(self) -> bool {
        &&& self.balances.dom().finite()
        &&& self.total_supply == total(self.balances)
        &&& self.total_supply < pow2_256()
        &&& self.total_assets < pow2_256()
    }

    /// No venue is earmarked more than `assets`.
    pub open spec fn covers(self, assets: nat) -> bool {
        forall|protocol: Seq<char>| #[trigger] self.allocation(protocol) <= assets
    }

    /// The allocation bound: no venue is earmarked more than the pool holds.
    pub open spec fn allocations_covered(self) -> bool {
        self.covers(self.total_assets)
    }

    /// What holds of a vault in every state: its shares are conserved and
    /// its allocations are covered.
    pub open spec fn sound(self) -> bool {
        &&& self.conserved()
        &&& self.allocations_covered()
    }

    pub open spec fn convert_to_shares(self, assets: nat) -> Result<nat, Failure<nat>> {
        if self.total_supply != 0 && self.total_assets != 0 && assets * self.total_supply
            >= pow2_256() {
            Err(Failure::Overflow)
        } else {
            Ok(shares_for(assets, self.total_assets, self.total_supply))
        }
    }

    pub open spec fn convert_to_assets(self, shares: nat) -> Result<nat, Failure<nat>> {
        if self.total_supply != 0 && shares * self.total_assets >= pow2_256() {
            Err(Failure::Overflow)
        } else {
            Ok(assets_for(shares, self.total_assets, self.total_supply))
        }
    }

    /// The state with `shares` more for `account` and both totals raised.
    pub open spec fn credited(self, account: Address, shares: nat, assets: nat) -> VaultView {
        VaultView {
            balances: self.balances.insert(account, self.balance_of(account) + shares),
            total_assets: self.total_assets + assets,
            total_supply: self.total_supply + shares,
            ..self
        }
    }

    /// The state with `shares` fewer for `account` and both totals lowered.
    pub open spec fn debited(self, account: Address, shares: nat, assets: nat) -> VaultView {
        VaultView {
            balances: self.balances.insert(account, (self.balance_of(account) - shares) as nat),
            total_assets: (self.total_assets - assets) as nat,
            total_supply: (self.total_supply - shares) as nat,
            ..self
        }
    }

    /// `caller` pays `amount` assets in and receives the shares they buy.
    pub open spec fn deposit(self, caller: Address, amount: nat) -> Result<
        (VaultView, nat),
        Failure<nat>,
    > {
        if self.paused {
            Err(Failure::Paused)
        } else if amount == 0 {
            Err(Failure::InvalidAmount)
        } else if self.total_supply != 0 && self.total_assets == 0 {
            Err(Failure::EmptyPool)
        } else {
            match self.convert_to_shares(amount) {
                Err(e) => Err(e),
                Ok(shares) => if self.total_assets + amount >= pow2_256() || self.total_supply
                    + shares >= pow2_256() {
                    Err(Failure::Overflow)
                } else {
                    Ok((self.credited(caller, shares, amount), shares))
                },
            }
        }
    }

    /// `caller` takes `amount` assets out and burns shares for them, priced
    /// as a deposit of `amount` would be. What stays in the pool must cover
    /// every allocation.
    pub open spec fn withdraw(self, caller: Address, amount: nat) -> Result<
        (VaultView, nat),
        Failure<nat>,
    > {
        if self.paused {
            Err(Failure::Paused)
        } else if amount == 0 {
            Err(Failure::InvalidAmount)
        } else if self.balance_of(caller) == 0 {
            Err(Failure::NoShares)
        } else {
            match self.convert_to_shares(amount) {
                Err(e) => Err(e),
                Ok(shares) => if shares > self.balance_of(caller) {
                    Err(Failure::InsufficientShares { have: self.balance_of(caller), want: shares })
                } else if amount > self.total_assets {
                    Err(Failure::InsufficientAssets { have: self.total_assets, want: amount })
                } else if !self.covers((self.total_assets - amount) as nat) {
                    Err(Failure::AssetsAllocated)
                } else {
                    Ok((self.debited(caller, shares, amount), shares))
                },
            }
        }
    }

    /// `receiver` is given exactly `shares` shares, for the assets they
    /// stand for.
    pub open spec fn mint(self, shares: nat, receiver: Address) -> Result<
        (VaultView, nat),
        Failure<nat>,
    > {
        if self.paused {
            Err(Failure::Paused)
        } else if shares == 0 {
            Err(Failure::InvalidAmount)
        } else {
            match self.convert_to_assets(shares) {
                Err(e) => Err(e),
                Ok(assets) => if self.total_assets + assets >= pow2_256() || self.total_supply
                    + shares >= pow2_256() {
                    Err(Failure::Overflow)
                } else {
                    Ok((self.credited(receiver, shares, assets), assets))
                },
            }
        }
    }

    /// Exactly `shares` shares of `owner` are burned, for the assets they
    /// stand for. What stays in the pool must cover every allocation.
    pub open spec fn redeem(self, shares: nat, owner: Address) -> Result<
        (VaultView, nat),
        Failure<nat>,
    > {
        if self.paused {
            Err(Failure::Paused)
        } else if shares == 0 {
            Err(Failure::InvalidAmount)
        } else if shares > self.balance_of(owner) {
            Err(Failure::InsufficientShares { have: self.balance_of(owner), want: shares })
        } else {
            match self.convert_to_assets(shares) {
                Err(e) => Err(e),
                Ok(assets) => if !self.covers((self.total_assets - assets) as nat) {
                    Err(Failure::AssetsAllocated)
                } else {
                    Ok((self.debited(owner, shares, assets), assets))
                },
            }
        }
    }

    /// `amount` shares move from `from` to `to`. Moving to oneself changes
    /// nothing and always succeeds.
    pub open spec fn transfer_shares(self, from: Address, to: Address, amount: nat) -> Result<
        VaultView,
        Failure<nat>,
    > {
        if from == to {
            Ok(self)
        } else if self.balance_of(from) < amount {
            Err(Failure::InsufficientBalance { have: self.balance_of(from), want: amount })
        } else {
            Ok(
                VaultView {
                    balances: self.balances.insert(
                        from,
                        (self.balance_of(from) - amount) as nat,
                    ).insert(to, self.balance_of(to) + amount),
                    ..self
                },
            )
        }
    }

    /// `spender` moves `amount` shares from `from` to `to` and uses up that
    /// much of the allowance that `from` gave it.
    pub open spec fn transfer_from(
        self,
        spender: Address,
        from: Address,
        to: Address,
        amount: nat,
    ) -> Result<VaultView, Failure<nat>> {
        if self.allowance(from, spender) < amount {
            Err(
                Failure::InsufficientAllowance {
                    have: self.allowance(from, spender),
                    want: amount,
                },
            )
        } else {
            match self.transfer_shares(from, to, amount) {
                Err(e) => Err(e),
                Ok(moved) => Ok(
                    VaultView {
                        allowances: self.allowances.insert(
                            (from, spender),
                            (self.allowance(from, spender) - amount) as nat,
                        ),
                        ..moved
                    },
                ),
            }
        }
    }

    /// `owner` sets the allowance of `spender` to `amount`, whatever it was.
    pub open spec fn approve(self, owner: Address, spender: Address, amount: nat) -> VaultView {
        VaultView { allowances: self.allowances.insert((owner, spender), amount), ..self }
    }

    pub open spec fn set_paused(self, caller: Address, paused: bool) -> Result<
        VaultView,
        Failure<nat>,
    > {
        if caller != self.owner {
            Err(Failure::NotOwner)
        } else {
            Ok(VaultView { paused, ..self })
        }
    }

    pub open spec fn set_protocol_allocation(
        self,
        caller: Address,
        protocol: Seq<char>,
        amount: nat,
    ) -> Result<VaultView, Failure<nat>> {
        if caller != self.owner {
            Err(Failure::NotOwner)
        } else if amount > self.total_assets {
            Err(Failure::InsufficientAssets { have: self.total_assets, want: amount })
        } else {
            Ok(
                VaultView {
                    protocol_allocations: self.protocol_allocations.insert(protocol, amount),
                    ..self
                },
            )
        }
    }

    /// The owner earmarks `amount` assets for the venue `protocol`;
    /// `unset` is the refusal where the venue has no address.
    pub open spec fn deploy(
        self,
        caller: Address,
        protocol: Seq<char>,
        amount: nat,
        unset: Failure<nat>,
    ) -> Result<VaultView, Failure<nat>> {
        if caller != self.owner {
            Err(Failure::NotOwner)
        } else if self.paused {
            Err(Failure::Paused)
        } else if amount > self.total_assets {
            Err(Failure::InsufficientAssets { have: self.total_assets, want: amount })
        } else if self.protocol_address(protocol) == Address::zero() {
            Err(unset)
        } else {
            Ok(
                VaultView {
                    protocol_allocations: self.protocol_allocations.insert(protocol, amount),
                    ..self
                },
            )
        }
    }

    /// The rewards that the owner collects from the venue `protocol`: none.
    pub open spec fn harvest(self, caller: Address, protocol: Seq<char>) -> Result<
        nat,
        Failure<nat>,
    > {
        if caller != self.owner {
            Err(Failure::NotOwner)
        } else if self.protocol_address(protocol) == Address::zero() {
            Err(Failure::ProtocolNotSet)
        } else {
            Ok(0)
        }
    }

    pub open spec fn set_vault_name_hash(self, caller: Address, hash: Seq<u8>) -> Result<
        VaultView,
        Failure<nat>,
    > {
        if caller != self.owner {
            Err(Failure::NotOwner)
        } else {
            Ok(VaultView { vault_name_hash: hash, ..self })
        }
    }

    pub open spec fn set_vault_symbol_hash(self, caller: Address, hash: Seq<u8>) -> Result<
        VaultView,
        Failure<nat>,
    > {
        if caller != self.owner {
            Err(Failure::NotOwner)
        } else {
            Ok(VaultView { vault_symbol_hash: hash, ..self })
        }
    }

    pub open spec fn set_vault_decimals(self, caller: Address, decimals: u8) -> Result<
        VaultView,
        Failure<nat>,
    > {
        if caller != self.owner {
            Err(Failure::NotOwner)
        } else {
            Ok(VaultView { vault_decimals: decimals, ..self })
        }
    }

    /// The venue addresses as a vault records them when it is set up: none
    /// is known yet.
    pub open spec fn cached_protocol_addresses(self) -> VaultView {
        VaultView {
            protocol_addresses: self.protocol_addresses.insert("aave"@, Address::zero()).insert(
                "compound"@,
                Address::zero(),
            ).insert("uniswap"@, Address::zero()).insert("weth"@, Address::zero()),
            ..self
        }
    }

    /// Sets the vault up from commitments to its texts.
    pub open spec fn initialize_hashed(
        self,
        owner: Address,
        asset: Address,
        factory: Address,
        username_hash: Seq<u8>,
        bio_hash: Seq<u8>,
        vault_name_hash: Seq<u8>,
        vault_symbol_hash: Seq<u8>,
        vault_decimals: u8,
        username_limit: nat,
        bio_limit: nat,
        timestamp: u64,
    ) -> Result<VaultView, Failure<nat>> {
        if owner == Address::zero() || asset == Address::zero() || factory == Address::zero() {
            Err(Failure::InvalidAddress)
        } else if self.initialized {
            Err(Failure::AlreadyInitialized)
        } else {
            Ok(
                VaultView {
                    owner,
                    asset,
                    factory,
                    username_hash,
                    bio_hash,
                    vault_name_hash,
                    vault_symbol_hash,
                    vault_decimals,
                    username_limit,
                    bio_limit,
                    created_at: timestamp as nat,
                    paused: false,
                    initialized: true,
                    ..self
                }.cached_protocol_addresses(),
            )
        }
    }

    /// Sets the vault up: once only, with three principals that are not
    /// zero and texts within their limits, of which only commitments are
    /// kept.
    pub open spec fn initialize(
        self,
        owner: Address,
        asset: Address,
        factory: Address,
        username: Seq<char>,
        bio: Seq<char>,
        vault_name: Seq<char>,
        vault_symbol: Seq<char>,
        vault_decimals: u8,
        username_limit: nat,
        bio_limit: nat,
        timestamp: u64,
    ) -> Result<VaultView, Failure<nat>> {
        if owner == Address::zero() || asset == Address::zero() || factory == Address::zero() {
            Err(Failure::InvalidAddress)
        } else if self.initialized {
            Err(Failure::AlreadyInitialized)
        } else if encode_utf8(username).len() > username_limit {
            Err(Failure::UsernameTooLong)
        } else if encode_utf8(bio).len() > bio_limit {
            Err(Failure::BioTooLong)
        } else {
            self.initialize_hashed(
                owner,
                asset,
                factory,
                keccak256(encode_utf8(username)),
                keccak256(encode_utf8(bio)),
                keccak256(encode_utf8(vault_name)),
                keccak256(encode_utf8(vault_symbol)),
                vault_decimals,
                username_limit,
                bio_limit,
                timestamp,
            )
        }
    }
}

/// Rounding down never gives more than the pool holds: shares that are part
/// of the supply stand for assets that are part of the pool.
pub proof fn lemma_assets_for_bounded(shares: nat, total_assets: nat, total_supply: nat)
    requires
        shares <= total_supply,
    ensures
        assets_for(shares, total_assets, total_supply) <= total_assets,
{
    if total_supply != 0 {
        assert(shares * total_assets <= total_supply * total_assets) by (nonlinear_arith)
            requires
                shares <= total_supply,
        ;
        assert((shares * total_assets) / total_supply <= total_assets) by (nonlinear_arith)
            requires
                total_supply > 0,
                shares * total_assets <= total_supply * total_assets,
        ;
    }
}

/// Bootstrap rate: while no shares are outstanding, assets convert to
/// shares one for one, and a deposit that succeeds mints exactly as many
/// shares as assets were paid in.
pub proof fn lemma_bootstrap_rate(v: VaultView, caller: Address, amount: nat)
    requires
        v.total_supply == 0,
    ensures
        v.convert_to_shares(amount) == Ok::<nat, Failure<nat>>(amount),
        v.deposit(caller, amount) matches Ok((next, shares)) ==> shares == amount
            && next.balance_of(caller) == v.balance_of(caller) + amount,
        !v.paused && amount > 0 && v.total_assets + amount < pow2_256() && amount < pow2_256()
            ==> v.deposit(caller, amount).is_ok(),
{
}

/// Conservation under deposit.
pub proof fn lemma_deposit_conserves(v: VaultView, caller: Address, amount: nat)
    requires
        v.conserved(),
    ensures
        v.deposit(caller, amount) matches Ok((next, _)) ==> next.conserved(),
{
    if let Ok((next, shares)) = v.deposit(caller, amount) {
        lemma_total_insert(v.balances, caller, v.balance_of(caller) + shares);
    }
}

/// Conservation under withdrawal.
pub proof fn lemma_withdraw_conserves(v: VaultView, caller: Address, amount: nat)
    requires
        v.conserved(),
    ensures
        v.withdraw(caller, amount) matches Ok((next, _)) ==> next.conserved(),
{
    if let Ok((next, shares)) = v.withdraw(caller, amount) {
        lemma_total_bounds(v.balances, caller);
        lemma_total_insert(v.balances, caller, (v.balance_of(caller) - shares) as nat);
    }
}

/// Conservation under minting.
pub proof fn lemma_mint_conserves(v: VaultView, shares: nat, receiver: Address)
    requires
        v.conserved(),
    ensures
        v.mint(shares, receiver) matches Ok((next, _)) ==> next.conserved(),
{
    if let Ok((next, assets)) = v.mint(shares, receiver) {
        lemma_total_insert(v.balances, receiver, v.balance_of(receiver) + shares);
    }
}

/// Conservation under redemption. The assets paid out are part of the pool.
pub proof fn lemma_redeem_conserves(v: VaultView, shares: nat, owner: Address)
    requires
        v.conserved(),
    ensures
        v.redeem(shares, owner) matches Ok((next, assets)) ==> next.conserved() && assets
            <= v.total_assets && next.total_assets == v.total_assets - assets,
{
    if let Ok((next, assets)) = v.redeem(shares, owner) {
        lemma_total_bounds(v.balances, owner);
        lemma_assets_for_bounded(shares, v.total_assets, v.total_supply);
        lemma_total_insert(v.balances, owner, (v.balance_of(owner) - shares) as nat);
    }
}

/// Conservation under transfer: shares move, their sum stays.
pub proof fn lemma_transfer_conserves(v: VaultView, from: Address, to: Address, amount: nat)
    requires
        v.conserved(),
    ensures
        v.transfer_shares(from, to, amount) matches Ok(next) ==> next.conserved()
            && next.total_supply == v.total_supply && next.balance_of(to) < pow2_256(),
{
    if let Ok(next) = v.transfer_shares(from, to, amount) {
        if from != to {
            let lowered = v.balances.insert(from, (v.balance_of(from) - amount) as nat);
            lemma_total_insert(v.balances, from, (v.balance_of(from) - amount) as nat);
            lemma_total_insert(lowered, to, v.balance_of(to) + amount);
            lemma_total_bounds_pair(v.balances, from, to);
            assert(amount_of(lowered, to) == v.balance_of(to));
        } else {
            lemma_total_bounds(v.balances, to);
        }
    }
}

/// Conservation under delegated transfer.
pub proof fn lemma_transfer_from_conserves(
    v: VaultView,
    spender: Address,
    from: Address,
    to: Address,
    amount: nat,
)
    requires
        v.conserved(),
    ensures
        v.transfer_from(spender, from, to, amount) matches Ok(next) ==> next.conserved(),
{
    lemma_transfer_conserves(v, from, to, amount);
}

/// The allocation bound is kept: after every operation that succeeds, no
/// venue is earmarked more than the pool holds. Deposits and mints only add
/// to the pool; withdrawals and redemptions are refused where they would
/// take the pool below an allocation; an allocation is written only within
/// the pool.
pub proof fn lemma_allocations_stay_covered(
    v: VaultView,
    caller: Address,
    other: Address,
    amount: nat,
    protocol: Seq<char>,
    unset: Failure<nat>,
)
    requires
        v.allocations_covered(),
    ensures
        v.deposit(caller, amount) matches Ok((next, _)) ==> next.allocations_covered(),
        v.withdraw(caller, amount) matches Ok((next, _)) ==> next.allocations_covered(),
        v.mint(amount, other) matches Ok((next, _)) ==> next.allocations_covered(),
        v.redeem(amount, other) matches Ok((next, _)) ==> next.allocations_covered(),
        v.transfer_shares(caller, other, amount) matches Ok(next) ==> next.allocations_covered(),
        v.set_protocol_allocation(caller, protocol, amount) matches Ok(next)
            ==> next.allocations_covered(),
        v.deploy(caller, protocol, amount, unset) matches Ok(next) ==> next.allocations_covered(),
{
    if let Ok((next, _)) = v.deposit(caller, amount) {
        assert forall|p: Seq<char>| #[trigger] next.allocation(p) <= next.total_assets by {
            assert(v.allocation(p) <= v.total_assets);
        }
    }
    if let Ok((next, _)) = v.withdraw(caller, amount) {
        assert forall|p: Seq<char>| #[trigger] next.allocation(p) <= next.total_assets by {
            assert(v.allocation(p) <= (v.total_assets - amount) as nat);
        }
    }
    if let Ok((next, _)) = v.mint(amount, other) {
        assert forall|p: Seq<char>| #[trigger] next.allocation(p) <= next.total_assets by {
            assert(v.allocation(p) <= v.total_assets);
        }
    }
    if let Ok((next, assets)) = v.redeem(amount, other) {
        assert forall|p: Seq<char>| #[trigger] next.allocation(p) <= next.total_assets by {
            assert(v.allocation(p) <= (v.total_assets - assets) as nat);
        }
    }
    if let Ok(next) = v.transfer_shares(caller, other, amount) {
        assert forall|p: Seq<char>| #[trigger] next.allocation(p) <= next.total_assets by {
            assert(v.allocation(p) <= v.total_assets);
        }
    }
    if let Ok(next) = v.set_protocol_allocation(caller, protocol, amount) {
        assert forall|p: Seq<char>| #[trigger] next.allocation(p) <= next.total_assets by {
            assert(v.allocation(p) <= v.total_assets);
        }
    }
    if let Ok(next) = v.deploy(caller, protocol, amount, unset) {
        assert forall|p: Seq<char>| #[trigger] next.allocation(p) <= next.total_assets by {
            assert(v.allocation(p) <= v.total_assets);
        }
    }
}

/// A state with the same allocations and the same assets as one whose
/// allocations are covered has its allocations covered.
pub proof fn lemma_covered_frame(v: VaultView, next: VaultView)
    requires
        v.allocations_covered(),
        next.protocol_allocations == v.protocol_allocations,
        next.total_assets == v.total_assets,
    ensures
        next.allocations_covered(),
{
    assert forall|p: Seq<char>| #[trigger] next.allocation(p) <= next.total_assets by {
        assert(v.allocation(p) <= v.total_assets);
    }
}

/// No balance exceeds the supply, so none leaves the 256-bit range.
pub proof fn lemma_balance_bounded(v: VaultView, account: Address)
    requires
        v.conserved(),
    ensures
        v.balance_of(account) <= v.total_supply,
        v.balance_of(account) < pow2_256(),
{
    lemma_total_bounds(v.balances, account);
}

/// Pause gate: a paused vault refuses every deposit, withdrawal, mint and
/// redemption as paused, while its owner can still pause and unpause it.
pub proof fn lemma_pause_gate(
    v: VaultView,
    caller: Address,
    other: Address,
    amount: nat,
)
    requires
        v.paused,
    ensures
        v.deposit(caller, amount) == Err::<(VaultView, nat), Failure<nat>>(Failure::Paused),
        v.withdraw(caller, amount) == Err::<(VaultView, nat), Failure<nat>>(Failure::Paused),
        v.mint(amount, other) == Err::<(VaultView, nat), Failure<nat>>(Failure::Paused),
        v.redeem(amount, other) == Err::<(VaultView, nat), Failure<nat>>(Failure::Paused),
        v.set_paused(v.owner, true).is_ok(),
        v.set_paused(v.owner, false) matches Ok(next) && !next.paused,
{
}

/// Pausing takes effect at once: after the owner has paused a vault, it is
/// paused, whatever it was before.
pub proof fn lemma_pause_takes_effect(v: VaultView)
    ensures
        v.set_paused(v.owner, true) matches Ok(next) && next.paused,
{
}

/// Allowance enforcement: after `owner` approves `spender` for `limit`, a
/// delegated transfer of more than `limit` is refused for want of allowance,
/// and one within `limit` that succeeds leaves the allowance lowered by
/// what was moved.
pub proof fn lemma_allowance_enforced(
    v: VaultView,
    owner: Address,
    spender: Address,
    to: Address,
    limit: nat,
    amount: nat,
)
    ensures
        amount > limit ==> v.approve(owner, spender, limit).transfer_from(
            spender,
            owner,
            to,
            amount,
        ) == Err::<VaultView, Failure<nat>>(
            Failure::InsufficientAllowance { have: limit, want: amount },
        ),
        amount <= limit && (owner == to || amount <= v.balance_of(owner)) ==> (v.approve(
            owner,
            spender,
            limit,
        ).transfer_from(spender, owner, to, amount) matches Ok(next) && next.allowance(
            owner,
            spender,
        ) == limit - amount),
{
}

/// A vault is set up once: after a setup that succeeded, every further one
/// is refused, as already done where its three principals are not zero.
pub proof fn lemma_initialize_once(
    v: VaultView,
    next: VaultView,
    owner: Address,
    asset: Address,
    factory: Address,
    username: Seq<char>,
    bio: Seq<char>,
    vault_name: Seq<char>,
    vault_symbol: Seq<char>,
    vault_decimals: u8,
    username_limit: nat,
    bio_limit: nat,
    timestamp: u64,
)
    requires
        next.initialized,
    ensures
        next.initialize(
            owner,
            asset,
            factory,
            username,
            bio,
            vault_name,
            vault_symbol,
            vault_decimals,
            username_limit,
            bio_limit,
            timestamp,
        ).is_err(),
        owner != Address::zero() && asset != Address::zero() && factory != Address::zero()
            ==> next.initialize(
            owner,
            asset,
            factory,
            username,
            bio,
            vault_name,
            vault_symbol,
            vault_decimals,
            username_limit,
            bio_limit,
            timestamp,
        ) == Err::<VaultView, Failure<nat>>(Failure::AlreadyInitialized),
{
}

} // verus!
