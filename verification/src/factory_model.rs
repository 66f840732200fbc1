//! The registry as mathematics: its state as sets and maps, each operation as
//! a function from state to the next state or a refusal, and the laws that
//! hold of those functions.

use vstd::prelude::*;
use vstd::utf8::encode_utf8;
use crate::address::Address;
use crate::error::Failure;
use crate::hash::keccak256;
use crate::sum::amount_of;
use crate::uint::{
    be_bytes,
    lemma_be_bytes_injective,
    lemma_be_bytes_len,
    lemma_pow256_words,
    pow2_256,
};

verus! {

/// The longest username, in bytes.
pub const USERNAME_LIMIT: usize = 20;

/// The longest bio, in bytes.
pub const BIO_LIMIT: usize = 30;

/// The highest fee that may be set, in hundredths of a percent.
pub const MAX_FEE_BPS: u16 = 1000;

/// The nine bytes that end every identifier's preimage: the text
/// `UserVault`.
pub open spec fn vault_tag() -> Seq<u8> {
    seq![0x55u8, 0x73u8, 0x65u8, 0x72u8, 0x56u8, 0x61u8, 0x75u8, 0x6cu8, 0x74u8]
}

/// What is hashed to name a vault: its creator, its number as 32 bytes, the
/// time of its creation as 8 bytes, and the tag.
pub open spec fn vault_preimage(user: Address, vault_id: nat, timestamp: u64) -> Seq<u8> {
    user@ + be_bytes(vault_id, 32) + be_bytes(timestamp as nat, 8) + vault_tag()
}

/// The identifier of the vault that `user` creates as the `vault_id`-th of
/// the registry at time `timestamp`: the last twenty bytes of the digest
/// of the preimage.
pub open spec fn vault_address(user: Address, vault_id: nat, timestamp: u64) -> Address {
    Address::from_seq(keccak256(vault_preimage(user, vault_id, timestamp)).subrange(12, 32))
}

/// What is hashed differs from vault to vault: two preimages are the same
/// only where the creator, the vault's number and the time are the same. So
/// the number alone, which grows with every vault, keeps the preimages of
/// one registry apart.
pub proof fn lemma_preimage_injective(
    user1: Address,
    vault_id1: nat,
    timestamp1: u64,
    user2: Address,
    vault_id2: nat,
    timestamp2: u64,
)
    requires
        vault_id1 < pow2_256(),
        vault_id2 < pow2_256(),
        vault_preimage(user1, vault_id1, timestamp1) == vault_preimage(
            user2,
            vault_id2,
            timestamp2,
        ),
    ensures
        user1 == user2,
        vault_id1 == vault_id2,
        timestamp1 == timestamp2,
{
    let first = vault_preimage(user1, vault_id1, timestamp1);
    let second = vault_preimage(user2, vault_id2, timestamp2);
    user1.lemma_from_seq();
    user2.lemma_from_seq();
    lemma_be_bytes_len(vault_id1, 32);
    lemma_be_bytes_len(vault_id2, 32);
    lemma_be_bytes_len(timestamp1 as nat, 8);
    lemma_be_bytes_len(timestamp2 as nat, 8);
    lemma_pow256_words();
    assert(first.subrange(0, 20) =~= user1@);
    assert(second.subrange(0, 20) =~= user2@);
    user1.lemma_view_injective(user2);
    assert(first.subrange(20, 52) =~= be_bytes(vault_id1, 32));
    assert(second.subrange(20, 52) =~= be_bytes(vault_id2, 32));
    lemma_be_bytes_injective(vault_id1, vault_id2, 32);
    assert(first.subrange(52, 60) =~= be_bytes(timestamp1 as nat, 8));
    assert(second.subrange(52, 60) =~= be_bytes(timestamp2 as nat, 8));
    lemma_be_bytes_injective(timestamp1 as nat, timestamp2 as nat, 8);
}

/// What the registry keeps of a registered user.
pub struct UserProfile {
    pub username_hash: Seq<u8>,
    pub bio_hash: Seq<u8>,
    pub registered_at: nat,
}

/// What the registry keeps of a vault.
pub struct VaultInfo {
    pub owner: Address,
    pub created_at: nat,
    pub vault_id: nat,
    pub username_hash: Seq<u8>,
    pub bio_hash: Seq<u8>,
}

/// The state of the registry.
pub struct FactoryView {
    pub initialized: bool,
    /// The root admin, fixed when the registry is set up.
    pub deployer_admin: Address,
    pub admins: Set<Address>,
    pub admin_count: nat,
    pub users: Map<Address, UserProfile>,
    pub vaults: Map<Address, VaultInfo>,
    /// The vaults of each user, in the order of their creation.
    pub user_vaults: Map<Address, Seq<Address>>,
    pub vault_balances: Map<Address, nat>,
    pub total_vaults: nat,
    pub aave_lending_pool: Address,
    pub compound_comptroller: Address,
    pub uniswap_router: Address,
    pub weth_address: Address,
    /// The fee, in hundredths of a percent.
    pub fee_percentage: u16,
    pub fee_recipient: Address,
}

impl FactoryView {
    /// The state of a registry that nothing has been done to.
    pub open spec fn blank() -> FactoryView {
        FactoryView {
            initialized: false,
            deployer_admin: Address::zero(),
            admins: Set::empty(),
            admin_count: 0,
            users: Map::empty(),
            vaults: Map::empty(),
            user_vaults: Map::empty(),
            vault_balances: Map::empty(),
            total_vaults: 0,
            aave_lending_pool: Address::zero(),
            compound_comptroller: Address::zero(),
            uniswap_router: Address::zero(),
            weth_address: Address::zero(),
            fee_percentage: 0,
            fee_recipient: Address::zero(),
        }
    }

    pub open spec fn is_admin(self, account: Address) -> bool {
        self.admins.contains(account)
    }

    pub open spec fn is_registered(self, user: Address) -> bool {
        self.users.contains_key(user)
    }

    /// The vaults of `user`, in the order of their creation.
    pub open spec fn vaults_of(self, user: Address) -> Seq<Address> {
        if self.user_vaults.contains_key(user) {
            self.user_vaults[user]
        } else {
            Seq::empty()
        }
    }

    /// The owner recorded for `vault`, the zero address where none is.
    pub open spec fn owner_of(self, vault: Address) -> Address {
        if self.vaults.contains_key(vault) {
            self.vaults[vault].owner
        } else {
            Address::zero()
        }
    }

    pub open spec fn balance_of(self, vault: Address) -> nat {
        amount_of(self.vault_balances, vault)
    }

    /// The vault at place `i` of the list of `user` is recorded, and as a
    /// vault of `user`.
    pub open spec fn listed_agrees(self, user: Address, i: int) -> bool {
        self.vaults.contains_key(self.user_vaults[user][i]) && self.vaults[self.user_vaults[user][i]].owner
            == user
    }

    /// The vault `vault` stands in the list of its owner, who is registered.
    pub open spec fn recorded_is_listed(self, vault: Address) -> bool {
        self.vaults_of(self.vaults[vault].owner).contains(vault) && self.users.contains_key(
            self.vaults[vault].owner,
        )
    }

    /// What holds of the registry in every state: the admin count is the
    /// number of admins; the root is an admin from setup on, and before it
    /// nobody is; the vault count is the number of vaults; each user's list
    /// holds vaults recorded as that user's; and each vault stands in its
    /// owner's list.
    pub open spec fn consistent(self) -> bool {
        &&& self.admins.finite()
        &&& self.admin_count == self.admins.len()
        &&& (self.initialized ==> self.admins.contains(self.deployer_admin))
        &&& (!self.initialized ==> self.admins == Set::<Address>::empty())
        &&& self.vaults.dom().finite()
        &&& self.total_vaults == self.vaults.dom().len()
        &&& self.listed()
    }

    /// The lists and the records agree: each user's list holds vaults
    /// recorded as that user's, and each vault stands in the list of its
    /// owner, who is registered.
    pub open spec fn listed(self) -> bool {
        &&& forall|user: Address, i: int|
            self.user_vaults.contains_key(user) && 0 <= i < self.user_vaults[user].len()
                ==> #[trigger] self.listed_agrees(user, i)
        &&& forall|vault: Address| #[trigger]
            self.vaults.contains_key(vault) ==> self.recorded_is_listed(vault)
    }

    /// Sets the registry up: the caller becomes its root admin. Once only.
    pub open spec fn init(self, caller: Address) -> Result<FactoryView, Failure<nat>> {
        if self.initialized {
            Err(Failure::AlreadyInitialized)
        } else {
            Ok(
                FactoryView {
                    initialized: true,
                    deployer_admin: caller,
                    admins: self.admins.insert(caller),
                    admin_count: 1,
                    ..self
                },
            )
        }
    }

    /// Registers `caller` with commitments to a username and a bio. Once
    /// only.
    pub open spec fn register_hashed(
        self,
        caller: Address,
        username_hash: Seq<u8>,
        bio_hash: Seq<u8>,
        timestamp: u64,
    ) -> Result<FactoryView, Failure<nat>> {
        if self.users.contains_key(caller) {
            Err(Failure::AlreadyRegistered)
        } else {
            Ok(
                FactoryView {
                    users: self.users.insert(
                        caller,
                        UserProfile { username_hash, bio_hash, registered_at: timestamp as nat },
                    ),
                    ..self
                },
            )
        }
    }

    /// Registers `caller` with a username and a bio within their limits,
    /// of which only commitments are kept. Once only.
    pub open spec fn register_user(
        self,
        caller: Address,
        username: Seq<char>,
        bio: Seq<char>,
        timestamp: u64,
    ) -> Result<FactoryView, Failure<nat>> {
        if encode_utf8(username).len() > USERNAME_LIMIT {
            Err(Failure::UsernameTooLong)
        } else if encode_utf8(bio).len() > BIO_LIMIT {
            Err(Failure::BioTooLong)
        } else {
            self.register_hashed(
                caller,
                keccak256(encode_utf8(username)),
                keccak256(encode_utf8(bio)),
                timestamp,
            )
        }
    }

    /// Records the vault `vault` as the next one, created by `caller`, who
    /// must be registered, with the commitments of the caller's profile. An
    /// identifier that is taken is refused.
    pub open spec fn create_vault_at(self, caller: Address, vault: Address, timestamp: u64) -> Result<
        FactoryView,
        Failure<nat>,
    > {
        if !self.users.contains_key(caller) {
            Err(Failure::NotRegistered)
        } else if self.vaults.contains_key(vault) {
            Err(Failure::VaultExists)
        } else {
            Ok(
                FactoryView {
                    vaults: self.vaults.insert(
                        vault,
                        VaultInfo {
                            owner: caller,
                            created_at: timestamp as nat,
                            vault_id: self.total_vaults + 1,
                            username_hash: self.users[caller].username_hash,
                            bio_hash: self.users[caller].bio_hash,
                        },
                    ),
                    user_vaults: self.user_vaults.insert(caller, self.vaults_of(caller).push(vault)),
                    total_vaults: self.total_vaults + 1,
                    ..self
                },
            )
        }
    }

    /// Creates the next vault for `caller`, under the identifier derived
    /// from the caller, the vault's number and the time.
    pub open spec fn create_vault(self, caller: Address, timestamp: u64) -> Result<
        (FactoryView, Address),
        Failure<nat>,
    > {
        let vault = vault_address(caller, self.total_vaults + 1, timestamp);
        match self.create_vault_at(caller, vault, timestamp) {
            Err(e) => Err(e),
            Ok(next) => Ok((next, vault)),
        }
    }

    /// An admin makes `new_admin` an admin.
    pub open spec fn add_admin(self, caller: Address, new_admin: Address) -> Result<
        FactoryView,
        Failure<nat>,
    > {
        if !self.admins.contains(caller) {
            Err(Failure::NotAuthorized)
        } else if self.admins.contains(new_admin) {
            Err(Failure::AlreadyAdmin)
        } else {
            Ok(
                FactoryView {
                    admins: self.admins.insert(new_admin),
                    admin_count: self.admin_count + 1,
                    ..self
                },
            )
        }
    }

    /// An admin removes `admin` from the admins. The root stays.
    pub open spec fn remove_admin(self, caller: Address, admin: Address) -> Result<
        FactoryView,
        Failure<nat>,
    > {
        if !self.admins.contains(caller) {
            Err(Failure::NotAuthorized)
        } else if admin == self.deployer_admin {
            Err(Failure::CannotRemoveRoot)
        } else if !self.admins.contains(admin) {
            Err(Failure::NotAdmin)
        } else {
            Ok(
                FactoryView {
                    admins: self.admins.remove(admin),
                    admin_count: (self.admin_count - 1) as nat,
                    ..self
                },
            )
        }
    }

    pub open spec fn set_aave_address(self, caller: Address, address: Address) -> Result<
        FactoryView,
        Failure<nat>,
    > {
        if !self.admins.contains(caller) {
            Err(Failure::NotAuthorized)
        } else {
            Ok(FactoryView { aave_lending_pool: address, ..self })
        }
    }

    pub open spec fn set_compound_address(self, caller: Address, address: Address) -> Result<
        FactoryView,
        Failure<nat>,
    > {
        if !self.admins.contains(caller) {
            Err(Failure::NotAuthorized)
        } else {
            Ok(FactoryView { compound_comptroller: address, ..self })
        }
    }

    pub open spec fn set_uniswap_address(self, caller: Address, address: Address) -> Result<
        FactoryView,
        Failure<nat>,
    > {
        if !self.admins.contains(caller) {
            Err(Failure::NotAuthorized)
        } else {
            Ok(FactoryView { uniswap_router: address, ..self })
        }
    }

    pub open spec fn set_weth_address(self, caller: Address, address: Address) -> Result<
        FactoryView,
        Failure<nat>,
    > {
        if !self.admins.contains(caller) {
            Err(Failure::NotAuthorized)
        } else {
            Ok(FactoryView { weth_address: address, ..self })
        }
    }

    /// An admin sets the fee, which may not exceed the highest fee.
    pub open spec fn set_fee_percentage(self, caller: Address, bps: u16) -> Result<
        FactoryView,
        Failure<nat>,
    > {
        if !self.admins.contains(caller) {
            Err(Failure::NotAuthorized)
        } else if bps > MAX_FEE_BPS {
            Err(Failure::FeeTooHigh)
        } else {
            Ok(FactoryView { fee_percentage: bps, ..self })
        }
    }

    /// An admin names the principal that fees go to, which may not be the
    /// zero address.
    pub open spec fn set_fee_recipient(self, caller: Address, recipient: Address) -> Result<
        FactoryView,
        Failure<nat>,
    > {
        if !self.admins.contains(caller) {
            Err(Failure::NotAuthorized)
        } else if recipient == Address::zero() {
            Err(Failure::InvalidAddress)
        } else {
            Ok(FactoryView { fee_recipient: recipient, ..self })
        }
    }

    /// The owner of `vault` adds `amount` to what the registry holds for
    /// it.
    pub open spec fn deposit_to_vault(self, caller: Address, vault: Address, amount: nat) -> Result<
        FactoryView,
        Failure<nat>,
    > {
        if self.owner_of(vault) != caller {
            Err(Failure::NotVaultOwner)
        } else if self.balance_of(vault) + amount >= pow2_256() {
            Err(Failure::Overflow)
        } else {
            Ok(
                FactoryView {
                    vault_balances: self.vault_balances.insert(
                        vault,
                        self.balance_of(vault) + amount,
                    ),
                    ..self
                },
            )
        }
    }

    /// The owner of `vault` takes `amount` from what the registry holds
    /// for it.
    pub open spec fn withdraw_from_vault(self, caller: Address, vault: Address, amount: nat) -> Result<
        FactoryView,
        Failure<nat>,
    > {
        if self.owner_of(vault) != caller {
            Err(Failure::NotVaultOwner)
        } else if self.balance_of(vault) < amount {
            Err(Failure::InsufficientBalance { have: self.balance_of(vault), want: amount })
        } else {
            Ok(
                FactoryView {
                    vault_balances: self.vault_balances.insert(
                        vault,
                        (self.balance_of(vault) - amount) as nat,
                    ),
                    ..self
                },
            )
        }
    }

    /// The owner of `vault`; a vault without one is not found.
    pub open spec fn get_vault_owner(self, vault: Address) -> Result<Address, Failure<nat>> {
        if self.owner_of(vault) == Address::zero() {
            Err(Failure::VaultNotFound)
        } else {
            Ok(self.owner_of(vault))
        }
    }
}

/// A state with the same vaults and lists as one whose lists and records
/// agree, and with at least its users, has lists and records that agree.
pub proof fn lemma_listing_kept(v: FactoryView, next: FactoryView)
    requires
        v.listed(),
        next.vaults == v.vaults,
        next.user_vaults == v.user_vaults,
        forall|user: Address| v.users.contains_key(user) ==> next.users.contains_key(user),
    ensures
        next.listed(),
{
    assert forall|user: Address, i: int|
        next.user_vaults.contains_key(user) && 0 <= i < next.user_vaults[user].len()
            implies #[trigger] next.listed_agrees(user, i) by {
        assert(v.listed_agrees(user, i));
    }
    assert forall|vault: Address| #[trigger]
        next.vaults.contains_key(vault) implies next.recorded_is_listed(vault) by {
        assert(v.recorded_is_listed(vault));
    }
}

/// Setup keeps the registry consistent and makes the caller its one admin.
pub proof fn lemma_init_consistent(v: FactoryView, caller: Address)
    requires
        v.consistent(),
    ensures
        v.init(caller) matches Ok(next) ==> next.consistent() && next.admins == set![caller]
            && next.deployer_admin == caller,
{
    if let Ok(next) = v.init(caller) {
        assert(next.admins =~= set![caller]);
        lemma_listing_kept(v, next);
    }
}

/// Registration keeps the registry consistent.
pub proof fn lemma_register_consistent(
    v: FactoryView,
    caller: Address,
    username_hash: Seq<u8>,
    bio_hash: Seq<u8>,
    timestamp: u64,
)
    requires
        v.consistent(),
    ensures
        v.register_hashed(caller, username_hash, bio_hash, timestamp) matches Ok(next)
            ==> next.consistent(),
{
    if let Ok(next) = v.register_hashed(caller, username_hash, bio_hash, timestamp) {
        lemma_listing_kept(v, next);
    }
}

/// Creating a vault keeps the registry consistent. The new vault is the
/// last of its owner's list, which is otherwise as it was: an identifier
/// once listed stays listed.
pub proof fn lemma_create_vault_consistent(
    v: FactoryView,
    caller: Address,
    vault: Address,
    timestamp: u64,
)
    requires
        v.consistent(),
    ensures
        v.create_vault_at(caller, vault, timestamp) matches Ok(next) ==> next.consistent()
            && next.vaults_of(caller) == v.vaults_of(caller).push(vault) && next.owner_of(vault)
            == caller && (forall|user: Address|
            user != caller ==> #[trigger] next.vaults_of(user) == v.vaults_of(user)),
{
    if let Ok(next) = v.create_vault_at(caller, vault, timestamp) {
        assert forall|user: Address, i: int|
            next.user_vaults.contains_key(user) && 0 <= i < next.user_vaults[user].len()
                implies #[trigger] next.listed_agrees(user, i) by {
            if user == caller {
                if i < v.vaults_of(caller).len() {
                    assert(v.listed_agrees(user, i));
                }
            } else {
                assert(v.listed_agrees(user, i));
            }
        }
        assert forall|w: Address| #[trigger]
            next.vaults.contains_key(w) implies next.recorded_is_listed(w) by {
            if w == vault {
                let list = v.vaults_of(caller).push(vault);
                assert(list[list.len() - 1] == vault);
            } else {
                assert(v.recorded_is_listed(w));
                let owner = v.vaults[w].owner;
                if owner == caller {
                    let i = choose|i: int|
                        0 <= i < v.vaults_of(caller).len() && v.vaults_of(caller)[i] == w;
                    assert(v.vaults_of(caller).push(vault)[i] == w);
                }
            }
        }
    }
}

/// Adding and removing admins keep the registry consistent.
pub proof fn lemma_admin_change_consistent(v: FactoryView, caller: Address, account: Address)
    requires
        v.consistent(),
    ensures
        v.add_admin(caller, account) matches Ok(next) ==> next.consistent(),
        v.remove_admin(caller, account) matches Ok(next) ==> next.consistent(),
{
    if let Ok(next) = v.add_admin(caller, account) {
        lemma_listing_kept(v, next);
    }
    if let Ok(next) = v.remove_admin(caller, account) {
        lemma_listing_kept(v, next);
    }
}

/// A state that differs from a consistent one only in venue addresses, in
/// the fee and in what is held for the vaults is consistent.
pub proof fn lemma_frame_consistent(v: FactoryView, next: FactoryView)
    requires
        v.consistent(),
        next == (FactoryView {
            vault_balances: next.vault_balances,
            aave_lending_pool: next.aave_lending_pool,
            compound_comptroller: next.compound_comptroller,
            uniswap_router: next.uniswap_router,
            weth_address: next.weth_address,
            fee_percentage: next.fee_percentage,
            fee_recipient: next.fee_recipient,
            ..v
        }),
    ensures
        next.consistent(),
{
    lemma_listing_kept(v, next);
}

/// Admin immutability: whoever asks, the root admin is not removed; and an
/// admin who has added an account cannot add it again.
pub proof fn lemma_admin_immutability(
    v: FactoryView,
    caller: Address,
    account: Address,
)
    ensures
        v.remove_admin(caller, v.deployer_admin).is_err(),
        v.add_admin(caller, account) matches Ok(next) ==> next.add_admin(caller, account) == Err::<
            FactoryView,
            Failure<nat>,
        >(Failure::AlreadyAdmin),
{
}

/// The registry is set up once, and a user registers once: after a setup
/// that succeeded every further one is refused as already done, and after a
/// registration that succeeded every further one of the same user is
/// refused, as already done where its texts are within their limits.
pub proof fn lemma_double_init_rejected(
    v: FactoryView,
    caller: Address,
    other: Address,
    username: Seq<char>,
    bio: Seq<char>,
    timestamp: u64,
    username2: Seq<char>,
    bio2: Seq<char>,
    timestamp2: u64,
)
    ensures
        v.init(caller) matches Ok(next) ==> next.init(other) == Err::<FactoryView, Failure<nat>>(
            Failure::AlreadyInitialized,
        ),
        v.register_user(caller, username, bio, timestamp) matches Ok(next) ==> next.register_user(
            caller,
            username2,
            bio2,
            timestamp2,
        ).is_err() && (encode_utf8(username2).len() <= USERNAME_LIMIT && encode_utf8(bio2).len()
            <= BIO_LIMIT ==> next.register_user(caller, username2, bio2, timestamp2) == Err::<
            FactoryView,
            Failure<nat>,
        >(Failure::AlreadyRegistered)),
{
}

} // verus!
