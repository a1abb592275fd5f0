use crate::derivation::{authority_for, DerivedAuthority};
use crate::errors::{CreateError, ErrorCode, VaultError};
use crate::ledger::HoldingAccount;
use crate::vault::{
    spec_deposit, spec_initialize, spec_withdraw, Deposit, InitializeVault, VaultDirectory,
    VaultState, Withdraw,
};
use vstd::prelude::*;

verus! {

/// Derivation is deterministic: whatever two derivations report for the
/// same manager, they name the same vault address and the same
/// disambiguation value.
pub proof fn lemma_derive_deterministic(
    manager: Seq<u8>,
    first: DerivedAuthority,
    second: DerivedAuthority,
)
    requires
        authority_for(manager, first),
        authority_for(manager, second),
    ensures
        first.address@ == second.address@,
        first.bump == second.bump,
{
}

/// A successful initialization binds the new vault to exactly the
/// initializer as manager and the given mint, at the returned address.
pub proof fn lemma_initialize_binds_manager_and_mint(
    vaults: Map<Seq<u8>, VaultState>,
    accounts: InitializeVault,
)
    requires
        spec_initialize(vaults, accounts).0 is Ok,
    ensures
        ({
            let (r, after) = spec_initialize(vaults, accounts);
            &&& after.contains_key(r->Ok_0)
            &&& after[r->Ok_0].manager == accounts.initializer
            &&& after[r->Ok_0].token_mint == accounts.token_mint
        }),
{
}

/// Initializing twice for the same manager fails the second time with the
/// runtime's already-exists error, and the second attempt changes nothing:
/// the record of the first call survives as it was.
pub proof fn lemma_initialize_twice_fails(
    vaults: Map<Seq<u8>, VaultState>,
    first: InitializeVault,
    second: InitializeVault,
)
    requires
        first.initializer@ == second.initializer@,
        spec_initialize(vaults, first).0 is Ok,
    ensures
        ({
            let (r1, after_first) = spec_initialize(vaults, first);
            let (r2, after_second) = spec_initialize(after_first, second);
            &&& r2 == Err::<Seq<u8>, VaultError>(VaultError::Create(CreateError::AlreadyExists))
            &&& after_second == after_first
            &&& after_first[r1->Ok_0].manager == first.initializer
            &&& after_first[r1->Ok_0].token_mint == first.token_mint
        }),
{
}

/// At most one vault exists per manager: two stored vaults with the same
/// manager sit at the same address, because each sits at its manager's
/// derived address and derivation is a function.
pub proof fn lemma_one_vault_per_manager(
    directory: &VaultDirectory,
    first_address: Seq<u8>,
    second_address: Seq<u8>,
)
    requires
        directory.wf(),
        directory@.contains_key(first_address),
        directory@.contains_key(second_address),
        directory@[first_address].manager@ == directory@[second_address].manager@,
    ensures
        first_address == second_address,
{
    directory.lemma_stored_vault_is_bound(first_address);
    directory.lemma_stored_vault_is_bound(second_address);
}

/// The persisted layout is injective: two records with the same bytes are
/// the same record, so parsing what was serialized gives the record back.
pub proof fn lemma_layout_injective(first: VaultState, second: VaultState)
    requires
        first.spec_bytes() == second.spec_bytes(),
    ensures
        first == second,
{
    assert(first.manager@.len() == 32 && second.manager@.len() == 32);
    assert forall|j: int| 0 <= j < 32 implies first.manager@[j] == second.manager@[j]
        && first.token_mint@[j] == second.token_mint@[j] by {
        assert(first.spec_bytes()[j] == first.manager@[j]);
        assert(second.spec_bytes()[j] == second.manager@[j]);
        assert(first.spec_bytes()[32 + j] == first.token_mint@[j]);
        assert(second.spec_bytes()[32 + j] == second.token_mint@[j]);
    }
    assert(first.manager@ =~= second.manager@);
    assert(first.token_mint@ =~= second.token_mint@);
    crate::identity::lemma_identity_view_injective(first.manager, second.manager);
    crate::identity::lemma_identity_view_injective(first.token_mint, second.token_mint);
}

/// A deposit of the vault's own mint succeeds whenever the depositor's
/// holding account is theirs and funded, and it moves exactly the amount.
pub proof fn lemma_deposit_succeeds(
    vaults: Map<Seq<u8>, VaultState>,
    ledger: Map<Seq<u8>, HoldingAccount>,
    accounts: Deposit,
    amount: u64,
)
    requires
        vaults.contains_key(accounts.vault_pda@),
        accounts.token_mint == vaults[accounts.vault_pda@].token_mint,
        ledger.contains_key(accounts.depositor_token_account@),
        ledger.contains_key(accounts.vault_token_account@),
        ledger[accounts.depositor_token_account@].owner@ == accounts.depositor@,
        ledger[accounts.depositor_token_account@].balance >= amount,
        accounts.depositor_token_account@ != accounts.vault_token_account@,
        ledger[accounts.vault_token_account@].balance + amount <= u64::MAX,
    ensures
        ({
            let (r, after) = spec_deposit(vaults, ledger, accounts, amount);
            &&& r is Ok
            &&& after[accounts.depositor_token_account@].balance == ledger[
                accounts.depositor_token_account@
            ].balance - amount
            &&& after[accounts.vault_token_account@].balance == ledger[
                accounts.vault_token_account@
            ].balance + amount
        }),
{
}

/// A deposit the vault accepted moved exactly the amount: the depositor's
/// holding account lost it, the vault's gained it, and no other account
/// changed.
pub proof fn lemma_deposit_moves_amount(
    vaults: Map<Seq<u8>, VaultState>,
    ledger: Map<Seq<u8>, HoldingAccount>,
    accounts: Deposit,
    amount: u64,
)
    requires
        spec_deposit(vaults, ledger, accounts, amount).0 is Ok,
        accounts.depositor_token_account@ != accounts.vault_token_account@,
    ensures
        ({
            let (r, after) = spec_deposit(vaults, ledger, accounts, amount);
            &&& after[accounts.depositor_token_account@].balance == ledger[
                accounts.depositor_token_account@
            ].balance - amount
            &&& after[accounts.vault_token_account@].balance == ledger[
                accounts.vault_token_account@
            ].balance + amount
            &&& forall|k: Seq<u8>| after.contains_key(k) <==> ledger.contains_key(k)
            &&& forall|k: Seq<u8>|
                ledger.contains_key(k) && k != accounts.depositor_token_account@ && k
                    != accounts.vault_token_account@ ==> after[k] == ledger[k]
        }),
{
}

/// A deposit referencing any mint other than the vault's fails with
/// InvalidTokenMint and moves nothing.
pub proof fn lemma_deposit_wrong_mint_fails(
    vaults: Map<Seq<u8>, VaultState>,
    ledger: Map<Seq<u8>, HoldingAccount>,
    accounts: Deposit,
    amount: u64,
)
    requires
        vaults.contains_key(accounts.vault_pda@),
        accounts.token_mint != vaults[accounts.vault_pda@].token_mint,
    ensures
        spec_deposit(vaults, ledger, accounts, amount).0 == Err::<(), VaultError>(
            VaultError::Policy(ErrorCode::InvalidTokenMint),
        ),
        spec_deposit(vaults, ledger, accounts, amount).1 == ledger,
{
}

/// The manager can never withdraw: whatever the amount, the mint, or the
/// vault's balance, a withdrawal by the manager fails with
/// ManagerCannotWithdraw and moves nothing.
pub proof fn lemma_manager_cannot_withdraw(
    vaults: Map<Seq<u8>, VaultState>,
    ledger: Map<Seq<u8>, HoldingAccount>,
    accounts: Withdraw,
    amount: u64,
)
    requires
        vaults.contains_key(accounts.vault_pda@),
        accounts.withdrawer == vaults[accounts.vault_pda@].manager,
    ensures
        spec_withdraw(vaults, ledger, accounts, amount).0 == Err::<(), VaultError>(
            VaultError::Policy(ErrorCode::ManagerCannotWithdraw),
        ),
        spec_withdraw(vaults, ledger, accounts, amount).1 == ledger,
{
}

/// A withdrawal by anyone but the manager, for the vault's own mint, out
/// of the vault's own holding account with sufficient balance, succeeds,
/// and it moves exactly the amount to the recipient.
pub proof fn lemma_withdraw_succeeds(
    directory: &VaultDirectory,
    ledger: Map<Seq<u8>, HoldingAccount>,
    accounts: Withdraw,
    amount: u64,
)
    requires
        directory.wf(),
        directory@.contains_key(accounts.vault_pda@),
        accounts.withdrawer != directory@[accounts.vault_pda@].manager,
        accounts.token_mint == directory@[accounts.vault_pda@].token_mint,
        ledger.contains_key(accounts.vault_token_account@),
        ledger.contains_key(accounts.recipient_token_account@),
        ledger[accounts.vault_token_account@].owner@ == accounts.vault_pda@,
        ledger[accounts.vault_token_account@].balance >= amount,
        accounts.vault_token_account@ != accounts.recipient_token_account@,
        ledger[accounts.recipient_token_account@].balance + amount <= u64::MAX,
    ensures
        ({
            let (r, after) = spec_withdraw(directory@, ledger, accounts, amount);
            &&& r is Ok
            &&& after[accounts.vault_token_account@].balance == ledger[
                accounts.vault_token_account@
            ].balance - amount
            &&& after[accounts.recipient_token_account@].balance == ledger[
                accounts.recipient_token_account@
            ].balance + amount
        }),
{
    directory.lemma_stored_vault_is_bound(accounts.vault_pda@);
}

/// A withdrawal the vault accepted moved exactly the amount: the vault's
/// holding account lost it, the recipient's gained it, and no other
/// account changed.
pub proof fn lemma_withdraw_moves_amount(
    vaults: Map<Seq<u8>, VaultState>,
    ledger: Map<Seq<u8>, HoldingAccount>,
    accounts: Withdraw,
    amount: u64,
)
    requires
        spec_withdraw(vaults, ledger, accounts, amount).0 is Ok,
        accounts.vault_token_account@ != accounts.recipient_token_account@,
    ensures
        ({
            let (r, after) = spec_withdraw(vaults, ledger, accounts, amount);
            &&& after[accounts.vault_token_account@].balance == ledger[
                accounts.vault_token_account@
            ].balance - amount
            &&& after[accounts.recipient_token_account@].balance == ledger[
                accounts.recipient_token_account@
            ].balance + amount
            &&& forall|k: Seq<u8>| after.contains_key(k) <==> ledger.contains_key(k)
            &&& forall|k: Seq<u8>|
                ledger.contains_key(k) && k != accounts.vault_token_account@ && k
                    != accounts.recipient_token_account@ ==> after[k] == ledger[k]
        }),
{
}

/// A withdrawal referencing any mint other than the vault's fails with
/// InvalidTokenMint and moves nothing, even for a withdrawer who is not
/// the manager and a vault whose balance would cover the amount.
pub proof fn lemma_withdraw_wrong_mint_fails(
    vaults: Map<Seq<u8>, VaultState>,
    ledger: Map<Seq<u8>, HoldingAccount>,
    accounts: Withdraw,
    amount: u64,
)
    requires
        vaults.contains_key(accounts.vault_pda@),
        accounts.withdrawer != vaults[accounts.vault_pda@].manager,
        accounts.token_mint != vaults[accounts.vault_pda@].token_mint,
    ensures
        spec_withdraw(vaults, ledger, accounts, amount).0 == Err::<(), VaultError>(
            VaultError::Policy(ErrorCode::InvalidTokenMint),
        ),
        spec_withdraw(vaults, ledger, accounts, amount).1 == ledger,
{
}

} // verus!
