//! Share accounting and access control for pooled-asset vaults.
//!
//! A [`UserVault`] is one pool of assets and the ledger of the shares that
//! divide it; a [`VaultFactory`] is the registry of users, vaults and admins;
//! an [`Erc20`] is a plain share token. Each holds its state itself and is
//! changed only through its operations, which take the caller and the time
//! as arguments.
//!
//! What an operation does is written down twice: as a function on the
//! mathematical state ([`vault_model`], [`factory_model`]), and as the code
//! that is verified to compute that function. The laws of the ledger, such
//! as the conservation of shares, are proved of the functions.

pub mod address;
pub mod erc20;
pub mod error;
pub mod factory_model;
pub mod hash;
pub mod sum;
pub mod table;
pub mod uint;
pub mod user_vault;
pub mod vault_factory;
pub mod vault_model;

pub use address::Address;
pub use erc20::{Erc20, Erc20Error, Erc20Params};
pub use error::{ErrorKind, Failure, VaultError};
pub use uint::U256;
pub use user_vault::{UserVault, VaultState};
pub use vault_factory::VaultFactory;
