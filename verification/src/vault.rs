use crate::derivation::spec_derive;
use crate::errors::{CreateError, ErrorCode, VaultError};
use crate::identity::Identity;
use crate::ledger::{spec_transfer_apply, spec_transfer_check, HoldingAccount, TokenLedger};
use crate::table::Table;
use vstd::prelude::*;

verus! {

/// The persistent record of one vault: the manager it answers to and the
/// one token mint it accepts. Both are set at creation and never change.
#[derive(Clone, Copy, Debug)]
pub struct VaultState {
    pub manager: Identity,
    pub token_mint: Identity,
}

impl VaultState {
    /// The persisted layout: two fixed-width identity fields, the manager's
    /// bytes then the mint's.
    pub open spec fn spec_bytes(self) -> Seq<u8> {
        self.manager@ + self.token_mint@
    }

    /// Serialize for persistence.
    pub fn to_bytes(&self) -> (r: Vec<u8>)
        ensures
            r@ == self.spec_bytes(),
    {
        let mut out: Vec<u8> = Vec::new();
        let mut i: usize = 0;
        while i < 32
            invariant
                i <= 32,
                out@.len() == i,
                forall|j: int| 0 <= j < i ==> out@[j] == self.manager@[j],
            decreases 32 - i,
        {
            out.push(self.manager.bytes[i]);
            i += 1;
        }
        let mut k: usize = 0;
        while k < 32
            invariant
                k <= 32,
                out@.len() == 32 + k,
                forall|j: int| 0 <= j < 32 ==> out@[j] == self.manager@[j],
                forall|j: int| 0 <= j < k ==> out@[32 + j] == self.token_mint@[j],
            decreases 32 - k,
        {
            out.push(self.token_mint.bytes[k]);
            k += 1;
        }
        proof {
            assert(out@ =~= self.spec_bytes());
        }
        out
    }

    /// Parse a persisted record: exactly 64 bytes, manager then mint.
    pub fn from_bytes(data: &[u8]) -> (r: Option<VaultState>)
        ensures
            data@.len() == 64 ==> r is Some && r->Some_0.spec_bytes() == data@,
            data@.len() != 64 ==> r is None,
    {
        if data.len() != 64 {
            return None;
        }
        let mut manager: [u8; 32] = [0;32];
        let mut mint: [u8; 32] = [0;32];
        let mut i: usize = 0;
        while i < 32
            invariant
                i <= 32,
                data@.len() == 64,
                forall|j: int| 0 <= j < i ==> manager@[j] == data@[j],
                forall|j: int| 0 <= j < i ==> mint@[j] == data@[32 + j],
            decreases 32 - i,
        {
            manager[i] = data[i];
            mint[i] = data[i + 32];
            i += 1;
        }
        let vault = VaultState {
            manager: Identity { bytes: manager },
            token_mint: Identity { bytes: mint },
        };
        proof {
            assert(vault.spec_bytes() =~= data@);
        }
        Some(vault)
    }
}

/// A vault sits at the address derived from its manager: the derivation
/// exists and yields exactly this address.
pub open spec fn vault_bound(address: Seq<u8>, vault: VaultState) -> bool {
    &&& spec_derive(vault.manager@) is Some
    &&& spec_derive(vault.manager@)->Some_0.0 == address
}

/// The library's model of the ledger runtime's vault storage: every vault
/// record, keyed by its derived address.
pub struct VaultDirectory {
    vaults: Table<VaultState>,
}

impl VaultDirectory {
    /// Keys are unique, and every stored vault sits at the address derived
    /// from its manager.
    pub closed spec fn wf(&self) -> bool {
        &&& self.vaults.wf()
        &&& forall|k: Seq<u8>|
            self.vaults@.contains_key(k) ==> vault_bound(k, self.vaults@[k])
    }

    pub closed spec fn view(&self) -> Map<Seq<u8>, VaultState> {
        self.vaults@
    }

    pub fn new() -> (r: VaultDirectory)
        ensures
            r.wf(),
            r@ == Map::<Seq<u8>, VaultState>::empty(),
    {
        VaultDirectory { vaults: Table::new() }
    }

    /// The vault stored at an address, when one exists.
    pub fn get(&self, address: &Identity) -> (r: Option<VaultState>)
        requires
            self.wf(),
        ensures
            r == if self@.contains_key(address@) {
                Some(self@[address@])
            } else {
                None::<VaultState>
            },
    {
        self.vaults.get(address)
    }

    /// Every stored vault is bound to its address: the derivation of its
    /// manager exists and yields the address it is stored under.
    pub proof fn lemma_stored_vault_is_bound(&self, address: Seq<u8>)
        requires
            self.wf(),
            self@.contains_key(address),
        ensures
            vault_bound(address, self@[address]),
    {
    }
}

/// The parties to vault creation: who will manage the vault, and the one
/// mint it will accept.
#[derive(Clone, Copy, Debug)]
pub struct InitializeVault {
    pub initializer: Identity,
    pub token_mint: Identity,
}

/// The parties to a deposit: who pays, out of which holding account, into
/// which vault holding account, for which mint, against which vault.
#[derive(Clone, Copy, Debug)]
pub struct Deposit {
    pub depositor: Identity,
    pub depositor_token_account: Identity,
    pub vault_token_account: Identity,
    pub token_mint: Identity,
    pub vault_pda: Identity,
}

/// The parties to a withdrawal: which vault pays, out of which holding
/// account, to whom, for which mint, and who asked.
#[derive(Clone, Copy, Debug)]
pub struct Withdraw {
    pub vault_pda: Identity,
    pub vault_token_account: Identity,
    pub recipient_token_account: Identity,
    pub token_mint: Identity,
    pub withdrawer: Identity,
}

/// The deposit gate: a deposit is accepted exactly when it references the
/// vault's own mint.
pub open spec fn spec_deposit_policy(vault: VaultState, token_mint: Identity) -> Result<
    (),
    ErrorCode,
> {
    if token_mint != vault.token_mint {
        Err(ErrorCode::InvalidTokenMint)
    } else {
        Ok(())
    }
}

pub fn deposit_policy(vault: &VaultState, token_mint: &Identity) -> (r: Result<(), ErrorCode>)
    ensures
        r == spec_deposit_policy(*vault, *token_mint),
{
    if !(*token_mint == vault.token_mint) {
        Err(ErrorCode::InvalidTokenMint)
    } else {
        Ok(())
    }
}

/// The withdrawal gate, checks in the order they run: the manager is barred
/// from withdrawing, then the referenced mint must be the vault's own.
pub open spec fn spec_withdraw_policy(
    vault: VaultState,
    withdrawer: Identity,
    token_mint: Identity,
) -> Result<(), ErrorCode> {
    if withdrawer == vault.manager {
        Err(ErrorCode::ManagerCannotWithdraw)
    } else if token_mint != vault.token_mint {
        Err(ErrorCode::InvalidTokenMint)
    } else {
        Ok(())
    }
}

pub fn withdraw_policy(vault: &VaultState, withdrawer: &Identity, token_mint: &Identity) -> (r:
    Result<(), ErrorCode>)
    ensures
        r == spec_withdraw_policy(*vault, *withdrawer, *token_mint),
{
    if *withdrawer == vault.manager {
        Err(ErrorCode::ManagerCannotWithdraw)
    } else if !(*token_mint == vault.token_mint) {
        Err(ErrorCode::InvalidTokenMint)
    } else {
        Ok(())
    }
}

/// A returned vault address, seen abstractly.
pub open spec fn address_result_view(r: Result<Identity, VaultError>) -> Result<
    Seq<u8>,
    VaultError,
> {
    match r {
        Ok(address) => Ok(address@),
        Err(e) => Err(e),
    }
}

/// What `initialize` decides and leaves behind: a new vault record at the
/// initializer's derived address, bound to the initializer and the given
/// mint; a failure when the derivation finds no address or the address is
/// already taken, with the directory unchanged.
pub open spec fn spec_initialize(
    vaults: Map<Seq<u8>, VaultState>,
    accounts: InitializeVault,
) -> (Result<Seq<u8>, VaultError>, Map<Seq<u8>, VaultState>) {
    match spec_derive(accounts.initializer@) {
        None => (Err(VaultError::DerivationFailed), vaults),
        Some(derived) => {
            if vaults.contains_key(derived.0) {
                (Err(VaultError::Create(CreateError::AlreadyExists)), vaults)
            } else {
                (
                    Ok(derived.0),
                    vaults.insert(
                        derived.0,
                        VaultState {
                            manager: accounts.initializer,
                            token_mint: accounts.token_mint,
                        },
                    ),
                )
            }
        },
    }
}

/// Create a vault for the initializer: derive its address, refuse to
/// overwrite an existing record, and bind manager and mint for good.
pub fn initialize(directory: &mut VaultDirectory, accounts: &InitializeVault) -> (r: Result<
    Identity,
    VaultError,
>)
    requires
        old(directory).wf(),
    ensures
        final(directory).wf(),
        ({
            let (sr, sv) = spec_initialize(old(directory)@, *accounts);
            &&& address_result_view(r) == sr
            &&& final(directory)@ == sv
        }),
{
    let authority = match crate::derivation::derive(&accounts.initializer) {
        None => {
            return Err(VaultError::DerivationFailed);
        },
        Some(authority) => authority,
    };
    if directory.vaults.contains(&authority.address) {
        return Err(VaultError::Create(CreateError::AlreadyExists));
    }
    let vault = VaultState { manager: accounts.initializer, token_mint: accounts.token_mint };
    directory.vaults.put(authority.address, vault);
    proof {
        assert forall|k: Seq<u8>| directory.vaults@.contains_key(k) implies vault_bound(
            k,
            directory.vaults@[k],
        ) by {
            if k != authority.address@ {
                assert(old(directory).vaults@.contains_key(k));
            }
        }
    }
    Ok(authority.address)
}

/// What `deposit` decides and leaves behind: the vault must exist and the
/// referenced mint must be the vault's, then the token-transfer service
/// moves the amount from the depositor's holding account to the vault's,
/// under the depositor's own authority. On any failure no balance changes.
pub open spec fn spec_deposit(
    vaults: Map<Seq<u8>, VaultState>,
    ledger: Map<Seq<u8>, HoldingAccount>,
    accounts: Deposit,
    amount: u64,
) -> (Result<(), VaultError>, Map<Seq<u8>, HoldingAccount>) {
    if !vaults.contains_key(accounts.vault_pda@) {
        (Err(VaultError::VaultNotFound), ledger)
    } else if spec_deposit_policy(vaults[accounts.vault_pda@], accounts.token_mint) is Err {
        (
            Err(
                VaultError::Policy(
                    spec_deposit_policy(vaults[accounts.vault_pda@], accounts.token_mint)->Err_0,
                ),
            ),
            ledger,
        )
    } else {
        match spec_transfer_check(
            ledger,
            accounts.depositor_token_account@,
            accounts.vault_token_account@,
            accounts.depositor@,
            amount,
        ) {
            Err(e) => (Err(VaultError::Transfer(e)), ledger),
            Ok(_) => (
                Ok(()),
                spec_transfer_apply(
                    ledger,
                    accounts.depositor_token_account@,
                    accounts.vault_token_account@,
                    amount,
                ),
            ),
        }
    }
}

/// Deposit `amount` into the vault: anyone may pay in, as long as the
/// referenced mint matches the vault's and their own authority covers the
/// debited account.
pub fn deposit(
    directory: &VaultDirectory,
    ledger: &mut TokenLedger,
    accounts: &Deposit,
    amount: u64,
) -> (r: Result<(), VaultError>)
    requires
        directory.wf(),
        old(ledger).wf(),
    ensures
        final(ledger).wf(),
        ({
            let (sr, sl) = spec_deposit(directory@, old(ledger)@, *accounts, amount);
            &&& r == sr
            &&& final(ledger)@ == sl
        }),
{
    let vault = match directory.get(&accounts.vault_pda) {
        None => {
            return Err(VaultError::VaultNotFound);
        },
        Some(vault) => vault,
    };
    if let Err(code) = deposit_policy(&vault, &accounts.token_mint) {
        return Err(VaultError::Policy(code));
    }
    match ledger.transfer(
        &accounts.depositor_token_account,
        &accounts.vault_token_account,
        &accounts.depositor,
        amount,
    ) {
        Ok(_) => Ok(()),
        Err(e) => Err(VaultError::Transfer(e)),
    }
}

/// What `withdraw` decides and leaves behind, in the order the checks run:
/// the vault must exist; the manager may never withdraw; the referenced
/// mint must be the vault's; the vault's authority is derived afresh from
/// its manager; then the token-transfer service moves the amount from the
/// vault's holding account to the recipient's, under that derived
/// authority. On any failure no balance changes.
pub open spec fn spec_withdraw(
    vaults: Map<Seq<u8>, VaultState>,
    ledger: Map<Seq<u8>, HoldingAccount>,
    accounts: Withdraw,
    amount: u64,
) -> (Result<(), VaultError>, Map<Seq<u8>, HoldingAccount>) {
    if !vaults.contains_key(accounts.vault_pda@) {
        (Err(VaultError::VaultNotFound), ledger)
    } else {
        let vault = vaults[accounts.vault_pda@];
        if spec_withdraw_policy(vault, accounts.withdrawer, accounts.token_mint) is Err {
            (
                Err(
                    VaultError::Policy(
                        spec_withdraw_policy(
                            vault,
                            accounts.withdrawer,
                            accounts.token_mint,
                        )->Err_0,
                    ),
                ),
                ledger,
            )
        } else {
            match spec_derive(vault.manager@) {
                None => (Err(VaultError::DerivationFailed), ledger),
                Some(derived) => match spec_transfer_check(
                    ledger,
                    accounts.vault_token_account@,
                    accounts.recipient_token_account@,
                    derived.0,
                    amount,
                ) {
                    Err(e) => (Err(VaultError::Transfer(e)), ledger),
                    Ok(_) => (
                        Ok(()),
                        spec_transfer_apply(
                            ledger,
                            accounts.vault_token_account@,
                            accounts.recipient_token_account@,
                            amount,
                        ),
                    ),
                },
            }
        }
    }
}

/// Withdraw `amount` from the vault to the recipient. The manager is
/// structurally barred: the withdrawer must be anyone else. The vault
/// proves control of its holding account with an authority derived afresh
/// from public inputs; no private key is stored anywhere.
pub fn withdraw(
    directory: &VaultDirectory,
    ledger: &mut TokenLedger,
    accounts: &Withdraw,
    amount: u64,
) -> (r: Result<(), VaultError>)
    requires
        directory.wf(),
        old(ledger).wf(),
    ensures
        final(ledger).wf(),
        ({
            let (sr, sl) = spec_withdraw(directory@, old(ledger)@, *accounts, amount);
            &&& r == sr
            &&& final(ledger)@ == sl
        }),
{
    let vault = match directory.get(&accounts.vault_pda) {
        None => {
            return Err(VaultError::VaultNotFound);
        },
        Some(vault) => vault,
    };
    if let Err(code) = withdraw_policy(&vault, &accounts.withdrawer, &accounts.token_mint) {
        return Err(VaultError::Policy(code));
    }
    let authority = match crate::derivation::derive(&vault.manager) {
        None => {
            return Err(VaultError::DerivationFailed);
        },
        Some(authority) => authority,
    };
    match ledger.transfer(
        &accounts.vault_token_account,
        &accounts.recipient_token_account,
        &authority.address,
        amount,
    ) {
        Ok(_) => Ok(()),
        Err(e) => Err(VaultError::Transfer(e)),
    }
}

} // verus!
