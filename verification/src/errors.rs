use vstd::prelude::*;

verus! {

/// Policy violations the vault's rules detect before any transfer is
/// attempted. They are always surfaced to the caller and never retried.
#[derive(Clone, Copy, Debug, PartialEq, Eq, Structural)]
pub enum ErrorCode {
    /// The manager configures the vault but is structurally barred from
    /// draining it.
    ManagerCannotWithdraw,
    /// Every transfer must reference the one mint the vault accepts.
    InvalidTokenMint,
}

/// Failures of the ledger runtime's account creation.
#[derive(Clone, Copy, Debug, PartialEq, Eq, Structural)]
pub enum CreateError {
    /// The address already holds a record; creating again would overwrite it.
    AlreadyExists,
}

/// Failures of the token-transfer service.
#[derive(Clone, Copy, Debug, PartialEq, Eq, Structural)]
pub enum TransferError {
    /// A holding account named by the transfer does not exist.
    MissingAccount,
    /// The presented authority does not control the debited account.
    AuthorityMismatch,
    /// The debited account holds less than the requested amount.
    InsufficientFunds,
    /// Crediting the recipient would overflow its balance.
    BalanceOverflow,
}

/// Everything a vault operation can report: a local policy violation, a
/// collaborator failure passed through verbatim, or a failed derivation.
#[derive(Clone, Copy, Debug, PartialEq, Eq, Structural)]
pub enum VaultError {
    /// A policy violation detected by the vault itself.
    Policy(ErrorCode),
    /// The operation named a vault address with no vault record behind it.
    VaultNotFound,
    /// Account creation failed in the ledger runtime.
    Create(CreateError),
    /// The token-transfer service refused the transfer.
    Transfer(TransferError),
    /// No valid disambiguation value exists for the manager's derivation.
    DerivationFailed,
}

} // verus!
