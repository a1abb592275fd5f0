//! A custodial token vault: a vault is bound to a manager identity and a
//! single token mint at creation, accepts deposits from anyone holding the
//! right token, and pays out to anyone except the manager, authorizing the
//! outbound transfer with an authority derived from public inputs rather
//! than a stored private key.

pub mod derivation;
pub mod errors;
pub mod identity;
pub mod laws;
pub mod ledger;
pub mod table;
pub mod vault;

pub use derivation::DerivedAuthority;
pub use errors::{CreateError, ErrorCode, TransferError, VaultError};
pub use identity::Identity;
pub use ledger::{HoldingAccount, TokenLedger};
pub use vault::{deposit, deposit_policy, initialize, withdraw, withdraw_policy};
pub use vault::{Deposit, InitializeVault, VaultDirectory, VaultState, Withdraw};
