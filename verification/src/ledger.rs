use crate::errors::{CreateError, TransferError};
use crate::identity::Identity;
use crate::table::Table;
use vstd::prelude::*;

verus! {

/// One holding account: the on-ledger record tracking a balance of one
/// token type for one controlling identity.
#[derive(Clone, Copy, Debug)]
pub struct HoldingAccount {
    pub owner: Identity,
    pub balance: u64,
}

/// The library's model of the token-transfer service's state: every holding
/// account, keyed by its address. Transfers are atomic: either the full
/// amount moves or nothing does.
pub struct TokenLedger {
    accounts: Table<HoldingAccount>,
}

/// Why a transfer of `amount` from `from` to `to` under `authority` is
/// refused, if it is: the service checks the accounts exist, that the
/// authority controls the debited account, that the balance suffices, and
/// that the credit cannot overflow.
pub open spec fn spec_transfer_check(
    ledger: Map<Seq<u8>, HoldingAccount>,
    from: Seq<u8>,
    to: Seq<u8>,
    authority: Seq<u8>,
    amount: u64,
) -> Result<(), TransferError> {
    if !ledger.contains_key(from) || !ledger.contains_key(to) {
        Err(TransferError::MissingAccount)
    } else if ledger[from].owner@ != authority {
        Err(TransferError::AuthorityMismatch)
    } else if ledger[from].balance < amount {
        Err(TransferError::InsufficientFunds)
    } else if from != to && ledger[to].balance + amount > u64::MAX {
        Err(TransferError::BalanceOverflow)
    } else {
        Ok(())
    }
}

/// The ledger after a transfer the service accepted: the debited account
/// loses `amount`, the credited account gains it, every other account is
/// untouched; a self-transfer moves nothing.
pub open spec fn spec_transfer_apply(
    ledger: Map<Seq<u8>, HoldingAccount>,
    from: Seq<u8>,
    to: Seq<u8>,
    amount: u64,
) -> Map<Seq<u8>, HoldingAccount> {
    if from == to {
        ledger
    } else {
        ledger.insert(
            from,
            HoldingAccount {
                owner: ledger[from].owner,
                balance: (ledger[from].balance - amount) as u64,
            },
        ).insert(
            to,
            HoldingAccount {
                owner: ledger[to].owner,
                balance: (ledger[to].balance + amount) as u64,
            },
        )
    }
}

impl TokenLedger {
    pub closed spec fn wf(&self) -> bool {
        self.accounts.wf()
    }

    pub closed spec fn view(&self) -> Map<Seq<u8>, HoldingAccount> {
        self.accounts@
    }

    pub fn new() -> (r: TokenLedger)
        ensures
            r.wf(),
            r@ == Map::<Seq<u8>, HoldingAccount>::empty(),
    {
        TokenLedger { accounts: Table::new() }
    }

    /// Open a holding account with an empty balance for `owner`. Fails, and
    /// changes nothing, when the address already holds an account.
    pub fn create_account(&mut self, address: Identity, owner: Identity) -> (r: Result<
        (),
        CreateError,
    >)
        requires
            old(self).wf(),
        ensures
            final(self).wf(),
            r == if old(self)@.contains_key(address@) {
                Err::<(), CreateError>(CreateError::AlreadyExists)
            } else {
                Ok::<(), CreateError>(())
            },
            r is Ok ==> final(self)@ == old(self)@.insert(
                address@,
                HoldingAccount { owner, balance: 0 },
            ),
            r is Err ==> final(self)@ == old(self)@,
    {
        if self.accounts.contains(&address) {
            Err(CreateError::AlreadyExists)
        } else {
            self.accounts.put(address, HoldingAccount { owner, balance: 0 });
            Ok(())
        }
    }

    /// Credit freshly issued tokens to an account: how a depositor comes to
    /// hold a balance in the first place. Fails, and changes nothing, when
    /// the account is missing or the credit would overflow.
    pub fn mint_to(&mut self, address: &Identity, amount: u64) -> (r: Result<(), TransferError>)
        requires
            old(self).wf(),
        ensures
            final(self).wf(),
            r == if !old(self)@.contains_key(address@) {
                Err::<(), TransferError>(TransferError::MissingAccount)
            } else if old(self)@[address@].balance + amount > u64::MAX {
                Err::<(), TransferError>(TransferError::BalanceOverflow)
            } else {
                Ok::<(), TransferError>(())
            },
            r is Ok ==> final(self)@ == old(self)@.insert(
                address@,
                HoldingAccount {
                    owner: old(self)@[address@].owner,
                    balance: (old(self)@[address@].balance + amount) as u64,
                },
            ),
            r is Err ==> final(self)@ == old(self)@,
    {
        match self.accounts.get(address) {
            None => Err(TransferError::MissingAccount),
            Some(account) => {
                if account.balance > u64::MAX - amount {
                    Err(TransferError::BalanceOverflow)
                } else {
                    self.accounts.put(
                        *address,
                        HoldingAccount { owner: account.owner, balance: account.balance + amount },
                    );
                    Ok(())
                }
            },
        }
    }

    /// Move `amount` from `from` to `to`, when `authority` controls `from`
    /// and the balance suffices; otherwise refuse and change nothing.
    pub fn transfer(
        &mut self,
        from: &Identity,
        to: &Identity,
        authority: &Identity,
        amount: u64,
    ) -> (r: Result<(), TransferError>)
        requires
            old(self).wf(),
        ensures
            final(self).wf(),
            r == spec_transfer_check(old(self)@, from@, to@, authority@, amount),
            r is Ok ==> final(self)@ == spec_transfer_apply(old(self)@, from@, to@, amount),
            r is Err ==> final(self)@ == old(self)@,
    {
        let from_account = match self.accounts.get(from) {
            Some(account) => account,
            None => {
                return Err(TransferError::MissingAccount);
            },
        };
        let to_account = match self.accounts.get(to) {
            Some(account) => account,
            None => {
                return Err(TransferError::MissingAccount);
            },
        };
        if !(from_account.owner == *authority) {
            proof {
                crate::identity::lemma_identity_view_injective(from_account.owner, *authority);
            }
            return Err(TransferError::AuthorityMismatch);
        }
        if from_account.balance < amount {
            return Err(TransferError::InsufficientFunds);
        }
        if from == to {
            return Ok(());
        }
        proof {
            crate::identity::lemma_identity_view_injective(*from, *to);
        }
        if to_account.balance > u64::MAX - amount {
            return Err(TransferError::BalanceOverflow);
        }
        self.accounts.put(
            *from,
            HoldingAccount { owner: from_account.owner, balance: from_account.balance - amount },
        );
        self.accounts.put(
            *to,
            HoldingAccount { owner: to_account.owner, balance: to_account.balance + amount },
        );
        Ok(())
    }

    /// The balance an address holds, when it holds an account at all.
    pub fn balance_of(&self, address: &Identity) -> (r: Option<u64>)
        requires
            self.wf(),
        ensures
            r == if self@.contains_key(address@) {
                Some(self@[address@].balance)
            } else {
                None::<u64>
            },
    {
        match self.accounts.get(address) {
            Some(account) => Some(account.balance),
            None => None,
        }
    }

    /// The identity controlling an address, when it holds an account at all.
    pub fn owner_of(&self, address: &Identity) -> (r: Option<Identity>)
        requires
            self.wf(),
        ensures
            r == if self@.contains_key(address@) {
                Some(self@[address@].owner)
            } else {
                None::<Identity>
            },
    {
        match self.accounts.get(address) {
            Some(account) => Some(account.owner),
            None => None,
        }
    }
}

} // verus!
