//! Why an operation was refused.

use vstd::prelude::*;
use crate::uint::U256;

verus! {

/// The broad kinds of refusal.
#[derive(Clone, Copy, Debug, PartialEq, Eq, Structural)]
pub enum ErrorKind {
    /// An argument is not acceptable: a zero amount, a zero principal, text
    /// over its limit.
    InvalidArgument,
    /// The caller is not the owner or an admin that the operation asks for.
    Unauthorized,
    /// An account or a pool holds less than is to be taken.
    InsufficientBalance,
    /// An account holds fewer shares than are to be burned.
    InsufficientShares,
    /// A spender's allowance is less than is to be moved.
    InsufficientAllowance,
    /// What was to be created is there already.
    AlreadyExists,
    /// What was named is not known.
    NotFound,
    /// The vault is paused.
    Paused,
    /// A number would leave the 256-bit range.
    Overflow,
}

/// A refusal, with the numbers that caused it where there are any. The numbers
/// have type `N`: 256-bit values in results, naturals in specifications.
#[derive(Clone, Copy, Debug, PartialEq, Eq)]
pub enum Failure<N> {
    /// The owner, the asset or the factory is the zero address.
    InvalidAddress,
    /// The amount is zero.
    InvalidAmount,
    UsernameTooLong,
    BioTooLong,
    /// Shares are outstanding but the pool holds no assets, so a deposit
    /// cannot be priced.
    EmptyPool,
    /// The root admin cannot be removed.
    CannotRemoveRoot,
    /// The fee is over the highest that may be set.
    FeeTooHigh,
    /// The caller is not the vault's owner.
    NotOwner,
    /// The caller is not an admin.
    NotAuthorized,
    /// The caller does not own the vault named.
    NotVaultOwner,
    InsufficientBalance { have: N, want: N },
    /// The pool holds fewer assets than the operation needs.
    InsufficientAssets { have: N, want: N },
    /// Taking the assets out would leave less in the pool than is earmarked
    /// for a venue.
    AssetsAllocated,
    /// The caller holds no shares at all.
    NoShares,
    InsufficientShares { have: N, want: N },
    InsufficientAllowance { have: N, want: N },
    AlreadyInitialized,
    AlreadyRegistered,
    AlreadyAdmin,
    /// The identifier derived for a new vault is taken.
    VaultExists,
    NotRegistered,
    NotAdmin,
    VaultNotFound,
    AaveNotSet,
    CompoundNotSet,
    ProtocolNotSet,
    Paused,
    Overflow,
}

/// A refusal as the operations return it.
pub type VaultError = Failure<U256>;

impl<N> Failure<N> {
    /// The kind that the refusal falls under.
    pub open spec fn spec_kind(&self) -> ErrorKind {
        match self {
            Failure::InvalidAddress => ErrorKind::InvalidArgument,
            Failure::InvalidAmount => ErrorKind::InvalidArgument,
            Failure::UsernameTooLong => ErrorKind::InvalidArgument,
            Failure::BioTooLong => ErrorKind::InvalidArgument,
            Failure::EmptyPool => ErrorKind::InvalidArgument,
            Failure::CannotRemoveRoot => ErrorKind::InvalidArgument,
            Failure::FeeTooHigh => ErrorKind::InvalidArgument,
            Failure::NotOwner => ErrorKind::Unauthorized,
            Failure::NotAuthorized => ErrorKind::Unauthorized,
            Failure::NotVaultOwner => ErrorKind::Unauthorized,
            Failure::InsufficientBalance { .. } => ErrorKind::InsufficientBalance,
            Failure::InsufficientAssets { .. } => ErrorKind::InsufficientBalance,
            Failure::AssetsAllocated => ErrorKind::InsufficientBalance,
            Failure::NoShares => ErrorKind::InsufficientShares,
            Failure::InsufficientShares { .. } => ErrorKind::InsufficientShares,
            Failure::InsufficientAllowance { .. } => ErrorKind::InsufficientAllowance,
            Failure::AlreadyInitialized => ErrorKind::AlreadyExists,
            Failure::AlreadyRegistered => ErrorKind::AlreadyExists,
            Failure::AlreadyAdmin => ErrorKind::AlreadyExists,
            Failure::VaultExists => ErrorKind::AlreadyExists,
            Failure::NotRegistered => ErrorKind::NotFound,
            Failure::NotAdmin => ErrorKind::NotFound,
            Failure::VaultNotFound => ErrorKind::NotFound,
            Failure::AaveNotSet => ErrorKind::NotFound,
            Failure::CompoundNotSet => ErrorKind::NotFound,
            Failure::ProtocolNotSet => ErrorKind::NotFound,
            Failure::Paused => ErrorKind::Paused,
            Failure::Overflow => ErrorKind::Overflow,
        }
    }

    #[verifier::when_used_as_spec(spec_kind)]
    pub fn kind(&self) -> (k: ErrorKind)
        ensures
            k == self.spec_kind(),
    {
        match self {
            Failure::InvalidAddress => ErrorKind::InvalidArgument,
            Failure::InvalidAmount => ErrorKind::InvalidArgument,
            Failure::UsernameTooLong => ErrorKind::InvalidArgument,
            Failure::BioTooLong => ErrorKind::InvalidArgument,
            Failure::EmptyPool => ErrorKind::InvalidArgument,
            Failure::CannotRemoveRoot => ErrorKind::InvalidArgument,
            Failure::FeeTooHigh => ErrorKind::InvalidArgument,
            Failure::NotOwner => ErrorKind::Unauthorized,
            Failure::NotAuthorized => ErrorKind::Unauthorized,
            Failure::NotVaultOwner => ErrorKind::Unauthorized,
            Failure::InsufficientBalance { .. } => ErrorKind::InsufficientBalance,
            Failure::InsufficientAssets { .. } => ErrorKind::InsufficientBalance,
            Failure::AssetsAllocated => ErrorKind::InsufficientBalance,
            Failure::NoShares => ErrorKind::InsufficientShares,
            Failure::InsufficientShares { .. } => ErrorKind::InsufficientShares,
            Failure::InsufficientAllowance { .. } => ErrorKind::InsufficientAllowance,
            Failure::AlreadyInitialized => ErrorKind::AlreadyExists,
            Failure::AlreadyRegistered => ErrorKind::AlreadyExists,
            Failure::AlreadyAdmin => ErrorKind::AlreadyExists,
            Failure::VaultExists => ErrorKind::AlreadyExists,
            Failure::NotRegistered => ErrorKind::NotFound,
            Failure::NotAdmin => ErrorKind::NotFound,
            Failure::VaultNotFound => ErrorKind::NotFound,
            Failure::AaveNotSet => ErrorKind::NotFound,
            Failure::CompoundNotSet => ErrorKind::NotFound,
            Failure::ProtocolNotSet => ErrorKind::NotFound,
            Failure::Paused => ErrorKind::Paused,
            Failure::Overflow => ErrorKind::Overflow,
        }
    }

    /// The text that tells a caller of the refusal.
    pub open spec fn spec_message(&self) -> Seq<char> {
        match self {
            Failure::InvalidAddress => "Invalid addresses"@,
            Failure::InvalidAmount => "Invalid amount"@,
            Failure::UsernameTooLong => "Username too long"@,
            Failure::BioTooLong => "Bio too long"@,
            Failure::EmptyPool => "No assets in pool"@,
            Failure::CannotRemoveRoot => "Cannot remove deployer admin"@,
            Failure::FeeTooHigh => "Fee too high"@,
            Failure::NotOwner => "Not owner"@,
            Failure::NotAuthorized => "Not authorized"@,
            Failure::NotVaultOwner => "Not vault owner"@,
            Failure::InsufficientBalance { .. } => "Insufficient balance"@,
            Failure::InsufficientAssets { .. } => "Insufficient assets"@,
            Failure::AssetsAllocated => "Assets are allocated"@,
            Failure::NoShares => "No shares to withdraw"@,
            Failure::InsufficientShares { .. } => "Insufficient shares"@,
            Failure::InsufficientAllowance { .. } => "Insufficient allowance"@,
            Failure::AlreadyInitialized => "Already initialized"@,
            Failure::AlreadyRegistered => "User already registered"@,
            Failure::AlreadyAdmin => "Already an admin"@,
            Failure::VaultExists => "Vault already exists"@,
            Failure::NotRegistered => "User not registered"@,
            Failure::NotAdmin => "Not an admin"@,
            Failure::VaultNotFound => "Vault not found"@,
            Failure::AaveNotSet => "Aave address not set"@,
            Failure::CompoundNotSet => "Compound address not set"@,
            Failure::ProtocolNotSet => "Protocol address not set"@,
            Failure::Paused => "Vault is paused"@,
            Failure::Overflow => "Arithmetic overflow"@,
        }
    }

    pub fn message(&self) -> (s: &'static str)
        ensures
            s@ == self.spec_message(),
    {
        match self {
            Failure::InvalidAddress => "Invalid addresses",
            Failure::InvalidAmount => "Invalid amount",
            Failure::UsernameTooLong => "Username too long",
            Failure::BioTooLong => "Bio too long",
            Failure::EmptyPool => "No assets in pool",
            Failure::CannotRemoveRoot => "Cannot remove deployer admin",
            Failure::FeeTooHigh => "Fee too high",
            Failure::NotOwner => "Not owner",
            Failure::NotAuthorized => "Not authorized",
            Failure::NotVaultOwner => "Not vault owner",
            Failure::InsufficientBalance { .. } => "Insufficient balance",
            Failure::InsufficientAssets { .. } => "Insufficient assets",
            Failure::AssetsAllocated => "Assets are allocated",
            Failure::NoShares => "No shares to withdraw",
            Failure::InsufficientShares { .. } => "Insufficient shares",
            Failure::InsufficientAllowance { .. } => "Insufficient allowance",
            Failure::AlreadyInitialized => "Already initialized",
            Failure::AlreadyRegistered => "User already registered",
            Failure::AlreadyAdmin => "Already an admin",
            Failure::VaultExists => "Vault already exists",
            Failure::NotRegistered => "User not registered",
            Failure::NotAdmin => "Not an admin",
            Failure::VaultNotFound => "Vault not found",
            Failure::AaveNotSet => "Aave address not set",
            Failure::CompoundNotSet => "Compound address not set",
            Failure::ProtocolNotSet => "Protocol address not set",
            Failure::Paused => "Vault is paused",
            Failure::Overflow => "Arithmetic overflow",
        }
    }
}

impl Failure<U256> {
    /// The same refusal with its numbers as naturals.
    pub open spec fn view(&self) -> Failure<nat> {
        match *self {
            Failure::InvalidAddress => Failure::InvalidAddress,
            Failure::InvalidAmount => Failure::InvalidAmount,
            Failure::UsernameTooLong => Failure::UsernameTooLong,
            Failure::BioTooLong => Failure::BioTooLong,
            Failure::EmptyPool => Failure::EmptyPool,
            Failure::CannotRemoveRoot => Failure::CannotRemoveRoot,
            Failure::FeeTooHigh => Failure::FeeTooHigh,
            Failure::NotOwner => Failure::NotOwner,
            Failure::NotAuthorized => Failure::NotAuthorized,
            Failure::NotVaultOwner => Failure::NotVaultOwner,
            Failure::InsufficientBalance { have, want } => Failure::InsufficientBalance {
                have: have@,
                want: want@,
            },
            Failure::InsufficientAssets { have, want } => Failure::InsufficientAssets {
                have: have@,
                want: want@,
            },
            Failure::AssetsAllocated => Failure::AssetsAllocated,
            Failure::NoShares => Failure::NoShares,
            Failure::InsufficientShares { have, want } => Failure::InsufficientShares {
                have: have@,
                want: want@,
            },
            Failure::InsufficientAllowance { have, want } => Failure::InsufficientAllowance {
                have: have@,
                want: want@,
            },
            Failure::AlreadyInitialized => Failure::AlreadyInitialized,
            Failure::AlreadyRegistered => Failure::AlreadyRegistered,
            Failure::AlreadyAdmin => Failure::AlreadyAdmin,
            Failure::VaultExists => Failure::VaultExists,
            Failure::NotRegistered => Failure::NotRegistered,
            Failure::NotAdmin => Failure::NotAdmin,
            Failure::VaultNotFound => Failure::VaultNotFound,
            Failure::AaveNotSet => Failure::AaveNotSet,
            Failure::CompoundNotSet => Failure::CompoundNotSet,
            Failure::ProtocolNotSet => Failure::ProtocolNotSet,
            Failure::Paused => Failure::Paused,
            Failure::Overflow => Failure::Overflow,
        }
    }
}

} // verus!
