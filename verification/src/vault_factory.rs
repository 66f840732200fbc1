//! The registry: who is registered, which vaults exist and whose they are,
//! who may configure the registry, and where the outside venues are.

use vstd::prelude::*;
use vstd::set_lib::lemma_len_subset;
use vstd::string::StringSliceAdditionalSpecFns;
use crate::address::Address;
use crate::error::{Failure, VaultError};
use crate::factory_model::{
    lemma_admin_change_consistent,
    lemma_create_vault_consistent,
    lemma_frame_consistent,
    lemma_init_consistent,
    lemma_register_consistent,
    vault_address,
    vault_preimage,
    vault_tag,
    FactoryView,
    UserProfile,
    VaultInfo,
    BIO_LIMIT,
    MAX_FEE_BPS,
    USERNAME_LIMIT,
};
use crate::hash::{hash_bytes, hash_string};
use crate::sum::{amounts, lemma_amounts_insert};
use crate::table::Table;
use crate::uint::{u64_to_be_bytes, U256};

verus! {

/// What is stored of a registered user.
#[derive(Clone, Copy)]
struct UserRecord {
    username_hash: [u8; 32],
    bio_hash: [u8; 32],
    registered_at: U256,
}

/// What is stored of a vault.
#[derive(Clone, Copy)]
struct VaultRecord {
    owner: Address,
    created_at: U256,
    vault_id: U256,
    username_hash: [u8; 32],
    bio_hash: [u8; 32],
}

spec fn profile(r: UserRecord) -> UserProfile {
    UserProfile {
        username_hash: r.username_hash@,
        bio_hash: r.bio_hash@,
        registered_at: r.registered_at@,
    }
}

spec fn info(r: VaultRecord) -> VaultInfo {
    VaultInfo {
        owner: r.owner,
        created_at: r.created_at@,
        vault_id: r.vault_id@,
        username_hash: r.username_hash@,
        bio_hash: r.bio_hash@,
    }
}

spec fn admin_set(m: Map<Address, bool>) -> Set<Address> {
    Set::new(|a: Address| m.contains_key(a) && m[a])
}

spec fn profiles(m: Map<Address, UserRecord>) -> Map<Address, UserProfile> {
    Map::new(|a: Address| m.contains_key(a), |a: Address| profile(m[a]))
}

spec fn infos(m: Map<Address, VaultRecord>) -> Map<Address, VaultInfo> {
    Map::new(|a: Address| m.contains_key(a), |a: Address| info(m[a]))
}

spec fn lists(m: Map<Address, Vec<Address>>) -> Map<Address, Seq<Address>> {
    Map::new(|a: Address| m.contains_key(a), |a: Address| m[a]@)
}

/// Appends the bytes of an array to a vector.
fn append<const N: usize>(data: &mut Vec<u8>, bytes: &[u8; N])
    ensures
        final(data)@ == old(data)@ + bytes@,
{
    let mut i: usize = 0;
    while i < N
        invariant
            i <= N,
            data@ == old(data)@ + bytes@.subrange(0, i as int),
        decreases N - i,
    {
        data.push(bytes[i]);
        proof {
            assert(bytes@.subrange(0, i + 1) =~= bytes@.subrange(0, i as int).push(bytes@[i as int]));
        }
        i += 1;
    }
    proof {
        assert(bytes@.subrange(0, N as int) =~= bytes@);
    }
}

/// A copy of a list of addresses.
fn copy_list(list: &Vec<Address>) -> (r: Vec<Address>)
    ensures
        r@ == list@,
{
    let mut r: Vec<Address> = Vec::new();
    let mut i: usize = 0;
    while i < list.len()
        invariant
            i <= list@.len(),
            r@ == list@.subrange(0, i as int),
        decreases list@.len() - i,
    {
        r.push(list[i]);
        proof {
            assert(list@.subrange(0, i + 1) =~= list@.subrange(0, i as int).push(list@[i as int]));
        }
        i += 1;
    }
    proof {
        assert(list@.subrange(0, list@.len() as int) =~= list@);
    }
    r
}

/// The registry and all that it records.
pub struct VaultFactory {
    initialized: bool,
    deployer_admin: Address,
    admin_list: Table<Address, bool>,
    admin_count: U256,
    users: Table<Address, UserRecord>,
    vaults: Table<Address, VaultRecord>,
    user_vaults: Table<Address, Vec<Address>>,
    vault_balances: Table<Address, U256>,
    total_vaults: U256,
    aave_lending_pool: Address,
    compound_comptroller: Address,
    uniswap_router: Address,
    weth_address: Address,
    fee_percentage: u16,
    fee_recipient: Address,
}

impl VaultFactory {
    /// The registry's state.
    pub closed spec fn view(&self) -> FactoryView {
        FactoryView {
            initialized: self.initialized,
            deployer_admin: self.deployer_admin,
            admins: admin_set(self.admin_list@),
            admin_count: self.admin_count@,
            users: profiles(self.users@),
            vaults: infos(self.vaults@),
            user_vaults: lists(self.user_vaults@),
            vault_balances: amounts(self.vault_balances@),
            total_vaults: self.total_vaults@,
            aave_lending_pool: self.aave_lending_pool,
            compound_comptroller: self.compound_comptroller,
            uniswap_router: self.uniswap_router,
            weth_address: self.weth_address,
            fee_percentage: self.fee_percentage,
            fee_recipient: self.fee_recipient,
        }
    }

    /// The tables that the registry is stored in are sound.
    pub closed spec fn stored(&self) -> bool {
        &&& self.admin_list.wf()
        &&& self.users.wf()
        &&& self.vaults.wf()
        &&& self.user_vaults.wf()
        &&& self.vault_balances.wf()
    }

    /// The registry is sound: soundly stored and consistent.
    pub open spec fn wf(&self) -> bool {
        &&& self.stored()
        &&& self@.consistent()
    }

    /// A registry that nothing has been done to: not set up, with no admin,
    /// no user and no vault.
    pub fn new() -> (f: VaultFactory)
        ensures
            f.wf(),
            f@ == FactoryView::blank(),
    {
        let f = VaultFactory {
            initialized: false,
            deployer_admin: Address::zero(),
            admin_list: Table::new(),
            admin_count: U256::zero(),
            users: Table::new(),
            vaults: Table::new(),
            user_vaults: Table::new(),
            vault_balances: Table::new(),
            total_vaults: U256::zero(),
            aave_lending_pool: Address::zero(),
            compound_comptroller: Address::zero(),
            uniswap_router: Address::zero(),
            weth_address: Address::zero(),
            fee_percentage: 0,
            fee_recipient: Address::zero(),
        };
        proof {
            assert(f@.admins =~= Set::empty());
            assert(f@.users =~= Map::empty());
            assert(f@.vaults =~= Map::empty());
            assert(f@.user_vaults =~= Map::empty());
            assert(f@.vault_balances =~= Map::empty());
        }
        f
    }

    /// The vaults are no more than a machine can count, so their number
    /// never leaves the 256-bit range.
    proof fn lemma_vaults_counted(&self)
        requires
            self.wf(),
        ensures
            self@.total_vaults <= usize::MAX,
    {
        self.vaults.lemma_len_bounded();
        assert(self@.vaults.dom() =~= self.vaults@.dom());
    }

    /// Whether `addr` is an admin.
    fn is_admin(&self, addr: Address) -> (r: bool)
        requires
            self.stored(),
        ensures
            r == self@.is_admin(addr),
    {
        match self.admin_list.get(&addr) {
            Some(flag) => *flag,
            None => false,
        }
    }

    /// Sets the registry up: the caller becomes its root admin. Once only.
    pub fn init(&mut self, caller: Address) -> (r: Result<(), VaultError>)
        requires
            old(self).wf(),
        ensures
            final(self).wf(),
            match old(self)@.init(caller) {
                Ok(next) => final(self)@ == next && r.is_ok(),
                Err(e) => *final(self) == *old(self) && (r matches Err(x) && x@ == e),
            },
    {
        if self.initialized {
            return Err(Failure::AlreadyInitialized);
        }
        proof {
            lemma_init_consistent(self@, caller);
        }
        self.deployer_admin = caller;
        self.admin_list.insert(caller, true);
        self.admin_count = U256::one();
        self.initialized = true;
        proof {
            assert(self@.admins =~= old(self)@.admins.insert(caller));
        }
        Ok(())
    }

    /// Registers the caller with commitments to a username and a bio. Once
    /// only.
    pub fn register_hashed(
        &mut self,
        caller: Address,
        username_hash: [u8; 32],
        bio_hash: [u8; 32],
        timestamp: u64,
    ) -> (r: Result<(), VaultError>)
        requires
            old(self).wf(),
        ensures
            final(self).wf(),
            match old(self)@.register_hashed(caller, username_hash@, bio_hash@, timestamp) {
                Ok(next) => final(self)@ == next && r.is_ok(),
                Err(e) => *final(self) == *old(self) && (r matches Err(x) && x@ == e),
            },
    {
        if self.users.contains(&caller) {
            return Err(Failure::AlreadyRegistered);
        }
        proof {
            lemma_register_consistent(self@, caller, username_hash@, bio_hash@, timestamp);
        }
        let record = UserRecord {
            username_hash,
            bio_hash,
            registered_at: U256::from_u64(timestamp),
        };
        self.users.insert(caller, record);
        proof {
            assert(self@.users =~= old(self)@.users.insert(caller, profile(record)));
        }
        Ok(())
    }

    /// Registers the caller with a username of at most 20 bytes and a bio of
    /// at most 30, of which only commitments are kept. Once only.
    pub fn register_user(&mut self, caller: Address, username: String, bio: String, timestamp: u64) -> (r:
        Result<(), VaultError>)
        requires
            old(self).wf(),
        ensures
            final(self).wf(),
            match old(self)@.register_user(caller, username@, bio@, timestamp) {
                Ok(next) => final(self)@ == next && r.is_ok(),
                Err(e) => *final(self) == *old(self) && (r matches Err(x) && x@ == e),
            },
    {
        if username.as_str().as_bytes().len() > USERNAME_LIMIT {
            return Err(Failure::UsernameTooLong);
        }
        if bio.as_str().as_bytes().len() > BIO_LIMIT {
            return Err(Failure::BioTooLong);
        }
        let username_hash = hash_string(username.as_str());
        let bio_hash = hash_string(bio.as_str());
        self.register_hashed(caller, username_hash, bio_hash, timestamp)
    }

    /// The identifier of the vault that `user` creates as the `vault_id`-th
    /// at time `timestamp`.
    fn _generate_vault_address(user: Address, vault_id: U256, timestamp: u64) -> (a: Address)
        ensures
            a == vault_address(user, vault_id@, timestamp),
    {
        let mut data: Vec<u8> = Vec::new();
        let user_bytes = user.to_bytes();
        append(&mut data, &user_bytes);
        let id_bytes = vault_id.to_be_bytes();
        append(&mut data, &id_bytes);
        let time_bytes = u64_to_be_bytes(timestamp);
        append(&mut data, &time_bytes);
        let tag: [u8; 9] = [0x55u8, 0x73u8, 0x65u8, 0x72u8, 0x56u8, 0x61u8, 0x75u8, 0x6cu8, 0x74u8];
        proof {
            assert(tag@ =~= vault_tag());
        }
        append(&mut data, &tag);
        proof {
            assert(data@ =~= vault_preimage(user, vault_id@, timestamp));
        }
        let hash = hash_bytes(data.as_slice());
        let mut bytes = [0u8; 20];
        let mut i: usize = 0;
        while i < 20
            invariant
                i <= 20,
                forall|j: int| 0 <= j < i ==> bytes@[j] == hash@[12 + j],
            decreases 20 - i,
        {
            bytes.set(i, hash[12 + i]);
            i += 1;
        }
        let a = Address::from_bytes(bytes);
        proof {
            assert(a@ =~= hash@.subrange(12, 32));
            a.lemma_from_seq();
        }
        a
    }

    /// Records the vault `vault` as the next one, created by the caller,
    /// who must be registered. An identifier that is taken is refused.
    pub fn create_vault_at(&mut self, caller: Address, vault: Address, timestamp: u64) -> (r: Result<
        Address,
        VaultError,
    >)
        requires
            old(self).wf(),
        ensures
            final(self).wf(),
            match old(self)@.create_vault_at(caller, vault, timestamp) {
                Ok(next) => final(self)@ == next && r == Ok::<Address, VaultError>(vault),
                Err(e) => *final(self) == *old(self) && (r matches Err(x) && x@ == e),
            },
    {
        let record = match self.users.get(&caller) {
            Some(u) => *u,
            None => {
                return Err(Failure::NotRegistered);
            },
        };
        proof {
            self.lemma_vaults_counted();
        }
        let vault_id = self.total_vaults.checked_add(U256::one()).unwrap();
        if self.vaults.contains(&vault) {
            return Err(Failure::VaultExists);
        }
        proof {
            lemma_create_vault_consistent(self@, caller, vault, timestamp);
        }
        let entry = VaultRecord {
            owner: caller,
            created_at: U256::from_u64(timestamp),
            vault_id,
            username_hash: record.username_hash,
            bio_hash: record.bio_hash,
        };
        let mut list = match self.user_vaults.get(&caller) {
            Some(l) => copy_list(l),
            None => Vec::new(),
        };
        list.push(vault);
        self.vaults.insert(vault, entry);
        self.user_vaults.insert(caller, list);
        self.total_vaults = vault_id;
        proof {
            assert(self@.vaults =~= old(self)@.vaults.insert(vault, info(entry)));
            assert(self@.user_vaults =~= old(self)@.user_vaults.insert(
                caller,
                old(self)@.vaults_of(caller).push(vault),
            ));
        }
        Ok(vault)
    }

    /// Creates the next vault for the caller, who must be registered, under
    /// the identifier derived from the caller, the vault's number and the
    /// time.
    pub fn create_vault(&mut self, caller: Address, timestamp: u64) -> (r: Result<
        Address,
        VaultError,
    >)
        requires
            old(self).wf(),
        ensures
            final(self).wf(),
            match old(self)@.create_vault(caller, timestamp) {
                Ok((next, vault)) => final(self)@ == next && r == Ok::<Address, VaultError>(vault),
                Err(e) => *final(self) == *old(self) && (r matches Err(x) && x@ == e),
            },
    {
        if !self.users.contains(&caller) {
            return Err(Failure::NotRegistered);
        }
        proof {
            self.lemma_vaults_counted();
        }
        let vault_id = self.total_vaults.checked_add(U256::one()).unwrap();
        let vault = Self::_generate_vault_address(caller, vault_id, timestamp);
        self.create_vault_at(caller, vault, timestamp)
    }

    /// The vaults of `user`, in the order of their creation.
    pub fn get_user_vaults(&self, user: Address) -> (r: Result<Vec<Address>, VaultError>)
        requires
            self.wf(),
        ensures
            r matches Ok(list) && list@ == self@.vaults_of(user),
    {
        match self.user_vaults.get(&user) {
            Some(l) => Ok(copy_list(l)),
            None => Ok(Vec::new()),
        }
    }

    /// The owner recorded for `vault`, the zero address where none is.
    fn owner_of(&self, vault: Address) -> (a: Address)
        requires
            self.stored(),
        ensures
            a == self@.owner_of(vault),
    {
        match self.vaults.get(&vault) {
            Some(record) => record.owner,
            None => Address::zero(),
        }
    }

    /// The owner of `vault`; a vault without one is not found.
    pub fn get_vault_owner(&self, vault: Address) -> (r: Result<Address, VaultError>)
        requires
            self.wf(),
        ensures
            match self@.get_vault_owner(vault) {
                Ok(owner) => r == Ok::<Address, VaultError>(owner),
                Err(e) => r matches Err(x) && x@ == e,
            },
    {
        let owner = self.owner_of(vault);
        if owner.is_zero() {
            return Err(Failure::VaultNotFound);
        }
        Ok(owner)
    }

    /// The number of vaults created.
    pub fn get_total_vaults(&self) -> (r: Result<U256, VaultError>)
        ensures
            r matches Ok(n) && n@ == self@.total_vaults,
    {
        Ok(self.total_vaults)
    }

    /// The time at which `vault` was created, zero for a vault not known.
    pub fn get_vault_created_at(&self, vault: Address) -> (r: Result<U256, VaultError>)
        requires
            self.wf(),
        ensures
            r matches Ok(t) && t@ == (if self@.vaults.contains_key(vault) {
                self@.vaults[vault].created_at
            } else {
                0
            }),
    {
        match self.vaults.get(&vault) {
            Some(record) => Ok(record.created_at),
            None => Ok(U256::zero()),
        }
    }

    /// The commitment to the username of the owner of `vault`, 32 zero
    /// bytes for a vault not known.
    pub fn get_vault_username_hash(&self, vault: Address) -> (r: Result<[u8; 32], VaultError>)
        requires
            self.wf(),
        ensures
            r matches Ok(h) && h@ == (if self@.vaults.contains_key(vault) {
                self@.vaults[vault].username_hash
            } else {
                Seq::new(32, |i: int| 0u8)
            }),
    {
        match self.vaults.get(&vault) {
            Some(record) => Ok(record.username_hash),
            None => {
                let zeros = [0u8; 32];
                proof {
                    assert(zeros@ =~= Seq::new(32, |i: int| 0u8));
                }
                Ok(zeros)
            },
        }
    }

    /// The commitment to the bio of the owner of `vault`, 32 zero bytes for
    /// a vault not known.
    pub fn get_vault_bio_hash(&self, vault: Address) -> (r: Result<[u8; 32], VaultError>)
        requires
            self.wf(),
        ensures
            r matches Ok(h) && h@ == (if self@.vaults.contains_key(vault) {
                self@.vaults[vault].bio_hash
            } else {
                Seq::new(32, |i: int| 0u8)
            }),
    {
        match self.vaults.get(&vault) {
            Some(record) => Ok(record.bio_hash),
            None => {
                let zeros = [0u8; 32];
                proof {
                    assert(zeros@ =~= Seq::new(32, |i: int| 0u8));
                }
                Ok(zeros)
            },
        }
    }

    /// Makes `new_admin` an admin. Only an admin may.
    pub fn add_admin(&mut self, caller: Address, new_admin: Address) -> (r: Result<(), VaultError>)
        requires
            old(self).wf(),
        ensures
            final(self).wf(),
            match old(self)@.add_admin(caller, new_admin) {
                Ok(next) => final(self)@ == next && r.is_ok(),
                Err(e) => *final(self) == *old(self) && (r matches Err(x) && x@ == e),
            },
    {
        if !self.is_admin(caller) {
            return Err(Failure::NotAuthorized);
        }
        if self.is_admin(new_admin) {
            return Err(Failure::AlreadyAdmin);
        }
        proof {
            self.admin_list.lemma_len_bounded();
            lemma_len_subset(self@.admins, self.admin_list@.dom());
            lemma_admin_change_consistent(self@, caller, new_admin);
        }
        let count = self.admin_count.checked_add(U256::one()).unwrap();
        self.admin_list.insert(new_admin, true);
        self.admin_count = count;
        proof {
            assert(self@.admins =~= old(self)@.admins.insert(new_admin));
        }
        Ok(())
    }

    /// Removes `admin_to_remove` from the admins. Only an admin may, and
    /// the root admin stays.
    pub fn remove_admin(&mut self, caller: Address, admin_to_remove: Address) -> (r: Result<
        (),
        VaultError,
    >)
        requires
            old(self).wf(),
        ensures
            final(self).wf(),
            match old(self)@.remove_admin(caller, admin_to_remove) {
                Ok(next) => final(self)@ == next && r.is_ok(),
                Err(e) => *final(self) == *old(self) && (r matches Err(x) && x@ == e),
            },
    {
        if !self.is_admin(caller) {
            return Err(Failure::NotAuthorized);
        }
        if admin_to_remove == self.deployer_admin {
            return Err(Failure::CannotRemoveRoot);
        }
        if !self.is_admin(admin_to_remove) {
            return Err(Failure::NotAdmin);
        }
        proof {
            lemma_admin_change_consistent(self@, caller, admin_to_remove);
        }
        let count = self.admin_count.checked_sub(U256::one()).unwrap();
        self.admin_list.insert(admin_to_remove, false);
        self.admin_count = count;
        proof {
            assert(self@.admins =~= old(self)@.admins.remove(admin_to_remove));
        }
        Ok(())
    }

    /// Records the address of the Aave lending pool. Only an admin may.
    pub fn set_aave_address(&mut self, caller: Address, aave_address: Address) -> (r: Result<
        (),
        VaultError,
    >)
        requires
            old(self).wf(),
        ensures
            final(self).wf(),
            match old(self)@.set_aave_address(caller, aave_address) {
                Ok(next) => final(self)@ == next && r.is_ok(),
                Err(e) => *final(self) == *old(self) && (r matches Err(x) && x@ == e),
            },
    {
        if !self.is_admin(caller) {
            return Err(Failure::NotAuthorized);
        }
        self.aave_lending_pool = aave_address;
        proof {
            lemma_frame_consistent(old(self)@, self@);
        }
        Ok(())
    }

    /// Records the address of the Compound comptroller. Only an admin may.
    pub fn set_compound_address(&mut self, caller: Address, compound_address: Address) -> (r: Result<
        (),
        VaultError,
    >)
        requires
            old(self).wf(),
        ensures
            final(self).wf(),
            match old(self)@.set_compound_address(caller, compound_address) {
                Ok(next) => final(self)@ == next && r.is_ok(),
                Err(e) => *final(self) == *old(self) && (r matches Err(x) && x@ == e),
            },
    {
        if !self.is_admin(caller) {
            return Err(Failure::NotAuthorized);
        }
        self.compound_comptroller = compound_address;
        proof {
            lemma_frame_consistent(old(self)@, self@);
        }
        Ok(())
    }

    /// Records the address of the Uniswap router. Only an admin may.
    pub fn set_uniswap_address(&mut self, caller: Address, uniswap_address: Address) -> (r: Result<
        (),
        VaultError,
    >)
        requires
            old(self).wf(),
        ensures
            final(self).wf(),
            match old(self)@.set_uniswap_address(caller, uniswap_address) {
                Ok(next) => final(self)@ == next && r.is_ok(),
                Err(e) => *final(self) == *old(self) && (r matches Err(x) && x@ == e),
            },
    {
        if !self.is_admin(caller) {
            return Err(Failure::NotAuthorized);
        }
        self.uniswap_router = uniswap_address;
        proof {
            lemma_frame_consistent(old(self)@, self@);
        }
        Ok(())
    }

    /// Records the address of the wrapped-ether token. Only an admin may.
    pub fn set_weth_address(&mut self, caller: Address, weth_address: Address) -> (r: Result<
        (),
        VaultError,
    >)
        requires
            old(self).wf(),
        ensures
            final(self).wf(),
            match old(self)@.set_weth_address(caller, weth_address) {
                Ok(next) => final(self)@ == next && r.is_ok(),
                Err(e) => *final(self) == *old(self) && (r matches Err(x) && x@ == e),
            },
    {
        if !self.is_admin(caller) {
            return Err(Failure::NotAuthorized);
        }
        self.weth_address = weth_address;
        proof {
            lemma_frame_consistent(old(self)@, self@);
        }
        Ok(())
    }

    /// Sets the fee, in hundredths of a percent and at most ten percent.
    /// Only an admin may.
    pub fn set_fee_percentage(&mut self, caller: Address, bps: u16) -> (r: Result<
        (),
        VaultError,
    >)
        requires
            old(self).wf(),
        ensures
            final(self).wf(),
            match old(self)@.set_fee_percentage(caller, bps) {
                Ok(next) => final(self)@ == next && r.is_ok(),
                Err(e) => *final(self) == *old(self) && (r matches Err(x) && x@ == e),
            },
    {
        if !self.is_admin(caller) {
            return Err(Failure::NotAuthorized);
        }
        if bps > MAX_FEE_BPS {
            return Err(Failure::FeeTooHigh);
        }
        self.fee_percentage = bps;
        proof {
            lemma_frame_consistent(old(self)@, self@);
        }
        Ok(())
    }

    /// Names the principal that fees go to, which may not be the zero
    /// address. Only an admin may.
    pub fn set_fee_recipient(&mut self, caller: Address, recipient: Address) -> (r: Result<
        (),
        VaultError,
    >)
        requires
            old(self).wf(),
        ensures
            final(self).wf(),
            match old(self)@.set_fee_recipient(caller, recipient) {
                Ok(next) => final(self)@ == next && r.is_ok(),
                Err(e) => *final(self) == *old(self) && (r matches Err(x) && x@ == e),
            },
    {
        if !self.is_admin(caller) {
            return Err(Failure::NotAuthorized);
        }
        if recipient.is_zero() {
            return Err(Failure::InvalidAddress);
        }
        self.fee_recipient = recipient;
        proof {
            lemma_frame_consistent(old(self)@, self@);
        }
        Ok(())
    }

    /// The fee, in hundredths of a percent.
    pub fn get_fee_percentage(&self) -> (r: Result<u16, VaultError>)
        ensures
            r == Ok::<u16, VaultError>(self@.fee_percentage),
    {
        Ok(self.fee_percentage)
    }

    /// The principal that fees go to, the zero address where none is named.
    pub fn get_fee_recipient(&self) -> (r: Result<Address, VaultError>)
        ensures
            r == Ok::<Address, VaultError>(self@.fee_recipient),
    {
        Ok(self.fee_recipient)
    }

    pub fn get_aave_address(&self) -> (r: Result<Address, VaultError>)
        ensures
            r == Ok::<Address, VaultError>(self@.aave_lending_pool),
    {
        Ok(self.aave_lending_pool)
    }

    pub fn get_compound_address(&self) -> (r: Result<Address, VaultError>)
        ensures
            r == Ok::<Address, VaultError>(self@.compound_comptroller),
    {
        Ok(self.compound_comptroller)
    }

    pub fn get_uniswap_address(&self) -> (r: Result<Address, VaultError>)
        ensures
            r == Ok::<Address, VaultError>(self@.uniswap_router),
    {
        Ok(self.uniswap_router)
    }

    pub fn get_weth_address(&self) -> (r: Result<Address, VaultError>)
        ensures
            r == Ok::<Address, VaultError>(self@.weth_address),
    {
        Ok(self.weth_address)
    }

    /// The root admin: the zero address before the registry is set up.
    pub fn get_deployer_admin(&self) -> (r: Result<Address, VaultError>)
        ensures
            r == Ok::<Address, VaultError>(self@.deployer_admin),
    {
        Ok(self.deployer_admin)
    }

    /// Adds `amount` to what the registry holds for `vault_address`. Only
    /// the vault's owner may.
    pub fn deposit_to_vault(&mut self, caller: Address, vault_address: Address, amount: U256) -> (r:
        Result<U256, VaultError>)
        requires
            old(self).wf(),
        ensures
            final(self).wf(),
            match old(self)@.deposit_to_vault(caller, vault_address, amount@) {
                Ok(next) => final(self)@ == next && r == Ok::<U256, VaultError>(amount),
                Err(e) => *final(self) == *old(self) && (r matches Err(x) && x@ == e),
            },
    {
        if self.owner_of(vault_address) != caller {
            return Err(Failure::NotVaultOwner);
        }
        let balance = self.vault_balances.amount(&vault_address);
        let raised = match balance.checked_add(amount) {
            Some(x) => x,
            None => {
                return Err(Failure::Overflow);
            },
        };
        proof {
            lemma_amounts_insert(self.vault_balances@, vault_address, raised);
        }
        self.vault_balances.insert(vault_address, raised);
        proof {
            lemma_frame_consistent(old(self)@, self@);
        }
        Ok(amount)
    }

    /// Takes `amount` from what the registry holds for `vault_address`.
    /// Only the vault's owner may.
    pub fn withdraw_from_vault(&mut self, caller: Address, vault_address: Address, amount: U256) -> (r:
        Result<U256, VaultError>)
        requires
            old(self).wf(),
        ensures
            final(self).wf(),
            match old(self)@.withdraw_from_vault(caller, vault_address, amount@) {
                Ok(next) => final(self)@ == next && r == Ok::<U256, VaultError>(amount),
                Err(e) => *final(self) == *old(self) && (r matches Err(x) && x@ == e),
            },
    {
        if self.owner_of(vault_address) != caller {
            return Err(Failure::NotVaultOwner);
        }
        let balance = self.vault_balances.amount(&vault_address);
        let lowered = match balance.checked_sub(amount) {
            Some(x) => x,
            None => {
                return Err(Failure::InsufficientBalance { have: balance, want: amount });
            },
        };
        proof {
            lemma_amounts_insert(self.vault_balances@, vault_address, lowered);
        }
        self.vault_balances.insert(vault_address, lowered);
        proof {
            lemma_frame_consistent(old(self)@, self@);
        }
        Ok(amount)
    }

    /// What the registry holds for `vault_address`.
    pub fn get_vault_balance(&self, vault_address: Address) -> (r: Result<U256, VaultError>)
        requires
            self.wf(),
        ensures
            r matches Ok(b) && b@ == self@.balance_of(vault_address),
    {
        Ok(self.vault_balances.amount(&vault_address))
    }

    /// Whether `addr` is an admin.
    pub fn check_is_admin(&self, addr: Address) -> (r: Result<bool, VaultError>)
        requires
            self.wf(),
        ensures
            r == Ok::<bool, VaultError>(self@.is_admin(addr)),
    {
        Ok(self.is_admin(addr))
    }

    /// The number of admins.
    pub fn get_admin_count(&self) -> (r: Result<U256, VaultError>)
        requires
            self.wf(),
        ensures
            r matches Ok(n) && n@ == self@.admin_count && n@ == self@.admins.len(),
    {
        Ok(self.admin_count)
    }

    /// Whether `user` is registered.
    pub fn is_user_registered(&self, user: Address) -> (r: Result<bool, VaultError>)
        requires
            self.wf(),
        ensures
            r == Ok::<bool, VaultError>(self@.is_registered(user)),
    {
        Ok(self.users.contains(&user))
    }

    /// The time at which `user` registered.
    pub fn get_user_registration_timestamp(&self, user: Address) -> (r: Result<U256, VaultError>)
        requires
            self.wf(),
        ensures
            self@.is_registered(user) ==> (r matches Ok(t) && t@
                == self@.users[user].registered_at),
            !self@.is_registered(user) ==> (r matches Err(Failure::NotRegistered)),
    {
        match self.users.get(&user) {
            Some(record) => Ok(record.registered_at),
            None => Err(Failure::NotRegistered),
        }
    }

    /// The commitment to the username of `user`.
    pub fn get_user_username_hash(&self, user: Address) -> (r: Result<[u8; 32], VaultError>)
        requires
            self.wf(),
        ensures
            self@.is_registered(user) ==> (r matches Ok(h) && h@
                == self@.users[user].username_hash),
            !self@.is_registered(user) ==> (r matches Err(Failure::NotRegistered)),
    {
        match self.users.get(&user) {
            Some(record) => Ok(record.username_hash),
            None => Err(Failure::NotRegistered),
        }
    }

    /// The commitment to the bio of `user`.
    pub fn get_user_bio_hash(&self, user: Address) -> (r: Result<[u8; 32], VaultError>)
        requires
            self.wf(),
        ensures
            self@.is_registered(user) ==> (r matches Ok(h) && h@ == self@.users[user].bio_hash),
            !self@.is_registered(user) ==> (r matches Err(Failure::NotRegistered)),
    {
        match self.users.get(&user) {
            Some(record) => Ok(record.bio_hash),
            None => Err(Failure::NotRegistered),
        }
    }

    /// In every sound registry the admin count is the number of admins, the
    /// root is an admin once the registry is set up, and every vault in a
    /// user's list is recorded as that user's.
    pub proof fn lemma_consistency(&self, user: Address, i: int)
        requires
            self.wf(),
            0 <= i < self@.vaults_of(user).len(),
        ensures
            self@.admin_count == self@.admins.len(),
            self@.initialized ==> self@.is_admin(self@.deployer_admin),
            self@.owner_of(self@.vaults_of(user)[i]) == user,
    {
        assert(self@.listed_agrees(user, i));
    }
}

} // verus!
