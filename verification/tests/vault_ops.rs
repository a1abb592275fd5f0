use spl_vault_token::{
    deposit, initialize, withdraw, CreateError, Deposit, ErrorCode, Identity, InitializeVault,
    TokenLedger, TransferError, VaultDirectory, VaultError, Withdraw,
};

fn ident(tag: u8) -> Identity {
    Identity::new([tag; 32])
}

/// A directory holding one vault for manager `a` accepting mint `t`, and a
/// ledger where `b` holds `funds` tokens in `b_acct` and the vault's own
/// holding account `v_acct` is owned by the derived vault address.
fn setup(
    a: Identity,
    t: Identity,
    b: Identity,
    b_acct: Identity,
    v_acct: Identity,
    funds: u64,
) -> (VaultDirectory, TokenLedger, Identity) {
    let mut directory = VaultDirectory::new();
    let mut ledger = TokenLedger::new();
    let vault_address = initialize(&mut directory, &InitializeVault {
        initializer: a,
        token_mint: t,
    })
    .expect("vault creation");
    ledger.create_account(b_acct, b).expect("depositor account");
    ledger.create_account(v_acct, vault_address).expect("vault account");
    ledger.mint_to(&b_acct, funds).expect("funding");
    (directory, ledger, vault_address)
}

#[test]
fn initialize_binds_manager_and_mint() {
    let a = ident(1);
    let t = ident(2);
    let mut directory = VaultDirectory::new();
    let r = initialize(&mut directory, &InitializeVault { initializer: a, token_mint: t });
    let vault_address = r.expect("vault creation");
    let stored = directory.get(&vault_address).expect("stored vault");
    assert_eq!(stored.manager, a);
    assert_eq!(stored.token_mint, t);
}

#[test]
fn initialize_twice_fails_and_preserves_state() {
    let a = ident(1);
    let t = ident(2);
    let t2 = ident(3);
    let mut directory = VaultDirectory::new();
    let vault_address = initialize(&mut directory, &InitializeVault {
        initializer: a,
        token_mint: t,
    })
    .expect("first creation");
    let second = initialize(&mut directory, &InitializeVault { initializer: a, token_mint: t2 });
    assert_eq!(second, Err(VaultError::Create(CreateError::AlreadyExists)));
    let stored = directory.get(&vault_address).expect("stored vault");
    assert_eq!(stored.manager, a);
    assert_eq!(stored.token_mint, t);
}

#[test]
fn deposit_moves_the_amount() {
    let (a, t, b) = (ident(1), ident(2), ident(3));
    let (b_acct, v_acct) = (ident(10), ident(11));
    let (directory, mut ledger, vault_address) = setup(a, t, b, b_acct, v_acct, 100);
    let r = deposit(
        &directory,
        &mut ledger,
        &Deposit {
            depositor: b,
            depositor_token_account: b_acct,
            vault_token_account: v_acct,
            token_mint: t,
            vault_pda: vault_address,
        },
        100,
    );
    assert_eq!(r, Ok(()));
    assert_eq!(ledger.balance_of(&b_acct), Some(0));
    assert_eq!(ledger.balance_of(&v_acct), Some(100));
}

#[test]
fn deposit_of_zero_is_accepted() {
    let (a, t, b) = (ident(1), ident(2), ident(3));
    let (b_acct, v_acct) = (ident(10), ident(11));
    let (directory, mut ledger, vault_address) = setup(a, t, b, b_acct, v_acct, 100);
    let r = deposit(
        &directory,
        &mut ledger,
        &Deposit {
            depositor: b,
            depositor_token_account: b_acct,
            vault_token_account: v_acct,
            token_mint: t,
            vault_pda: vault_address,
        },
        0,
    );
    assert_eq!(r, Ok(()));
    assert_eq!(ledger.balance_of(&b_acct), Some(100));
    assert_eq!(ledger.balance_of(&v_acct), Some(0));
}

#[test]
fn deposit_with_wrong_mint_fails_and_moves_nothing() {
    let (a, t, b) = (ident(1), ident(2), ident(3));
    let wrong_mint = ident(4);
    let (b_acct, v_acct) = (ident(10), ident(11));
    let (directory, mut ledger, vault_address) = setup(a, t, b, b_acct, v_acct, 100);
    let r = deposit(
        &directory,
        &mut ledger,
        &Deposit {
            depositor: b,
            depositor_token_account: b_acct,
            vault_token_account: v_acct,
            token_mint: wrong_mint,
            vault_pda: vault_address,
        },
        100,
    );
    assert_eq!(r, Err(VaultError::Policy(ErrorCode::InvalidTokenMint)));
    assert_eq!(ledger.balance_of(&b_acct), Some(100));
    assert_eq!(ledger.balance_of(&v_acct), Some(0));
}

#[test]
fn deposit_against_unknown_vault_fails() {
    let (a, t, b) = (ident(1), ident(2), ident(3));
    let (b_acct, v_acct) = (ident(10), ident(11));
    let (directory, mut ledger, _) = setup(a, t, b, b_acct, v_acct, 100);
    let r = deposit(
        &directory,
        &mut ledger,
        &Deposit {
            depositor: b,
            depositor_token_account: b_acct,
            vault_token_account: v_acct,
            token_mint: t,
            vault_pda: ident(99),
        },
        100,
    );
    assert_eq!(r, Err(VaultError::VaultNotFound));
}

#[test]
fn deposit_needs_the_depositor_authority() {
    let (a, t, b) = (ident(1), ident(2), ident(3));
    let intruder = ident(4);
    let (b_acct, v_acct) = (ident(10), ident(11));
    let (directory, mut ledger, vault_address) = setup(a, t, b, b_acct, v_acct, 100);
    let r = deposit(
        &directory,
        &mut ledger,
        &Deposit {
            depositor: intruder,
            depositor_token_account: b_acct,
            vault_token_account: v_acct,
            token_mint: t,
            vault_pda: vault_address,
        },
        100,
    );
    assert_eq!(r, Err(VaultError::Transfer(TransferError::AuthorityMismatch)));
    assert_eq!(ledger.balance_of(&b_acct), Some(100));
}

#[test]
fn deposit_beyond_funds_fails() {
    let (a, t, b) = (ident(1), ident(2), ident(3));
    let (b_acct, v_acct) = (ident(10), ident(11));
    let (directory, mut ledger, vault_address) = setup(a, t, b, b_acct, v_acct, 100);
    let r = deposit(
        &directory,
        &mut ledger,
        &Deposit {
            depositor: b,
            depositor_token_account: b_acct,
            vault_token_account: v_acct,
            token_mint: t,
            vault_pda: vault_address,
        },
        101,
    );
    assert_eq!(r, Err(VaultError::Transfer(TransferError::InsufficientFunds)));
    assert_eq!(ledger.balance_of(&b_acct), Some(100));
    assert_eq!(ledger.balance_of(&v_acct), Some(0));
}

#[test]
fn deposit_from_missing_account_fails() {
    let (a, t, b) = (ident(1), ident(2), ident(3));
    let (b_acct, v_acct) = (ident(10), ident(11));
    let (directory, mut ledger, vault_address) = setup(a, t, b, b_acct, v_acct, 100);
    let r = deposit(
        &directory,
        &mut ledger,
        &Deposit {
            depositor: b,
            depositor_token_account: ident(77),
            vault_token_account: v_acct,
            token_mint: t,
            vault_pda: vault_address,
        },
        10,
    );
    assert_eq!(r, Err(VaultError::Transfer(TransferError::MissingAccount)));
}

#[test]
fn deposit_overflowing_the_vault_fails() {
    let (a, t, b) = (ident(1), ident(2), ident(3));
    let (b_acct, v_acct) = (ident(10), ident(11));
    let (directory, mut ledger, vault_address) = setup(a, t, b, b_acct, v_acct, 100);
    ledger.mint_to(&v_acct, u64::MAX).expect("filling the vault");
    let r = deposit(
        &directory,
        &mut ledger,
        &Deposit {
            depositor: b,
            depositor_token_account: b_acct,
            vault_token_account: v_acct,
            token_mint: t,
            vault_pda: vault_address,
        },
        1,
    );
    assert_eq!(r, Err(VaultError::Transfer(TransferError::BalanceOverflow)));
    assert_eq!(ledger.balance_of(&b_acct), Some(100));
    assert_eq!(ledger.balance_of(&v_acct), Some(u64::MAX));
}

#[test]
fn manager_can_never_withdraw() {
    let (a, t, b) = (ident(1), ident(2), ident(3));
    let (b_acct, v_acct, out_acct) = (ident(10), ident(11), ident(12));
    let (directory, mut ledger, vault_address) = setup(a, t, b, b_acct, v_acct, 100);
    ledger.create_account(out_acct, a).expect("recipient account");
    ledger.mint_to(&v_acct, 100).expect("funding the vault");
    for amount in [0u64, 1, 100, u64::MAX] {
        let r = withdraw(
            &directory,
            &mut ledger,
            &Withdraw {
                vault_pda: vault_address,
                vault_token_account: v_acct,
                recipient_token_account: out_acct,
                token_mint: t,
                withdrawer: a,
            },
            amount,
        );
        assert_eq!(r, Err(VaultError::Policy(ErrorCode::ManagerCannotWithdraw)));
    }
    assert_eq!(ledger.balance_of(&v_acct), Some(100));
    assert_eq!(ledger.balance_of(&out_acct), Some(0));
}

#[test]
fn non_manager_withdrawal_moves_the_amount() {
    let (a, t, b, c) = (ident(1), ident(2), ident(3), ident(4));
    let (b_acct, v_acct, c_acct) = (ident(10), ident(11), ident(12));
    let (directory, mut ledger, vault_address) = setup(a, t, b, b_acct, v_acct, 100);
    ledger.create_account(c_acct, c).expect("recipient account");
    ledger.mint_to(&v_acct, 100).expect("funding the vault");
    let r = withdraw(
        &directory,
        &mut ledger,
        &Withdraw {
            vault_pda: vault_address,
            vault_token_account: v_acct,
            recipient_token_account: c_acct,
            token_mint: t,
            withdrawer: b,
        },
        40,
    );
    assert_eq!(r, Ok(()));
    assert_eq!(ledger.balance_of(&v_acct), Some(60));
    assert_eq!(ledger.balance_of(&c_acct), Some(40));
}

#[test]
fn withdrawal_with_wrong_mint_fails_despite_funds() {
    let (a, t, b, c) = (ident(1), ident(2), ident(3), ident(4));
    let wrong_mint = ident(5);
    let (b_acct, v_acct, c_acct) = (ident(10), ident(11), ident(12));
    let (directory, mut ledger, vault_address) = setup(a, t, b, b_acct, v_acct, 100);
    ledger.create_account(c_acct, c).expect("recipient account");
    ledger.mint_to(&v_acct, 100).expect("funding the vault");
    let r = withdraw(
        &directory,
        &mut ledger,
        &Withdraw {
            vault_pda: vault_address,
            vault_token_account: v_acct,
            recipient_token_account: c_acct,
            token_mint: wrong_mint,
            withdrawer: b,
        },
        40,
    );
    assert_eq!(r, Err(VaultError::Policy(ErrorCode::InvalidTokenMint)));
    assert_eq!(ledger.balance_of(&v_acct), Some(100));
    assert_eq!(ledger.balance_of(&c_acct), Some(0));
}

#[test]
fn withdrawal_beyond_the_vault_balance_fails() {
    let (a, t, b, c) = (ident(1), ident(2), ident(3), ident(4));
    let (b_acct, v_acct, c_acct) = (ident(10), ident(11), ident(12));
    let (directory, mut ledger, vault_address) = setup(a, t, b, b_acct, v_acct, 100);
    ledger.create_account(c_acct, c).expect("recipient account");
    ledger.mint_to(&v_acct, 30).expect("funding the vault");
    let r = withdraw(
        &directory,
        &mut ledger,
        &Withdraw {
            vault_pda: vault_address,
            vault_token_account: v_acct,
            recipient_token_account: c_acct,
            token_mint: t,
            withdrawer: b,
        },
        31,
    );
    assert_eq!(r, Err(VaultError::Transfer(TransferError::InsufficientFunds)));
    assert_eq!(ledger.balance_of(&v_acct), Some(30));
    assert_eq!(ledger.balance_of(&c_acct), Some(0));
}

#[test]
fn end_to_end_deposit_then_withdraw_then_manager_refused() {
    let (a, t, b, c) = (ident(1), ident(2), ident(3), ident(4));
    let (b_acct, v_acct, c_acct) = (ident(10), ident(11), ident(12));
    let (directory, mut ledger, vault_address) = setup(a, t, b, b_acct, v_acct, 100);
    ledger.create_account(c_acct, c).expect("recipient account");
    let deposited = deposit(
        &directory,
        &mut ledger,
        &Deposit {
            depositor: b,
            depositor_token_account: b_acct,
            vault_token_account: v_acct,
            token_mint: t,
            vault_pda: vault_address,
        },
        100,
    );
    assert_eq!(deposited, Ok(()));
    let withdrawn = withdraw(
        &directory,
        &mut ledger,
        &Withdraw {
            vault_pda: vault_address,
            vault_token_account: v_acct,
            recipient_token_account: c_acct,
            token_mint: t,
            withdrawer: b,
        },
        40,
    );
    assert_eq!(withdrawn, Ok(()));
    assert_eq!(ledger.balance_of(&v_acct), Some(60));
    assert_eq!(ledger.balance_of(&c_acct), Some(40));
    let by_manager = withdraw(
        &directory,
        &mut ledger,
        &Withdraw {
            vault_pda: vault_address,
            vault_token_account: v_acct,
            recipient_token_account: c_acct,
            token_mint: t,
            withdrawer: a,
        },
        60,
    );
    assert_eq!(by_manager, Err(VaultError::Policy(ErrorCode::ManagerCannotWithdraw)));
    assert_eq!(ledger.balance_of(&v_acct), Some(60));
    assert_eq!(ledger.balance_of(&c_acct), Some(40));
}

#[test]
fn policy_gates_answer_directly() {
    let (a, t, b) = (ident(1), ident(2), ident(3));
    let wrong_mint = ident(4);
    let vault = spl_vault_token::VaultState { manager: a, token_mint: t };
    assert_eq!(spl_vault_token::deposit_policy(&vault, &t), Ok(()));
    assert_eq!(
        spl_vault_token::deposit_policy(&vault, &wrong_mint),
        Err(ErrorCode::InvalidTokenMint)
    );
    assert_eq!(spl_vault_token::withdraw_policy(&vault, &b, &t), Ok(()));
    assert_eq!(
        spl_vault_token::withdraw_policy(&vault, &a, &t),
        Err(ErrorCode::ManagerCannotWithdraw)
    );
    assert_eq!(
        spl_vault_token::withdraw_policy(&vault, &b, &wrong_mint),
        Err(ErrorCode::InvalidTokenMint)
    );
}

#[test]
fn a_deposit_into_the_same_account_moves_nothing() {
    let (a, t, b) = (ident(1), ident(2), ident(3));
    let (b_acct, v_acct) = (ident(10), ident(11));
    let (directory, mut ledger, vault_address) = setup(a, t, b, b_acct, v_acct, 100);
    let r = deposit(
        &directory,
        &mut ledger,
        &Deposit {
            depositor: b,
            depositor_token_account: b_acct,
            vault_token_account: b_acct,
            token_mint: t,
            vault_pda: vault_address,
        },
        60,
    );
    assert_eq!(r, Ok(()));
    assert_eq!(ledger.balance_of(&b_acct), Some(100));
}
