use reward_custody::addresses::{derive_vault_authority, Credential};
use reward_custody::custody::{
    CreateMint, CustodyState, DepositTokens, MintTokens, WithdrawTokens, DECIMALS,
};
use reward_custody::errors::CustodyError;
use reward_custody::ledger::LedgerBook;
use reward_custody::metadata::MetadataRegistry;

fn pid() -> [u8; 32] {
    [7u8; 32]
}

fn player_a() -> [u8; 32] {
    [1u8; 32]
}

fn created_state() -> CustodyState {
    let mut s = CustodyState::new(pid());
    let r = s.create_mint(
        &CreateMint { signer: player_a() },
        &b"ipfs://x".to_vec(),
        &b"Reward".to_vec(),
        &b"RWD".to_vec(),
    );
    assert_eq!(r, Ok(()));
    s
}

fn mint_address(s: &CustodyState) -> [u8; 32] {
    s.asset.as_ref().unwrap().address
}

fn vault_owner(s: &CustodyState) -> [u8; 32] {
    derive_vault_authority(&mint_address(s), &pid()).unwrap().address
}

fn deposit_accounts(s: &CustodyState) -> DepositTokens {
    DepositTokens {
        player: player_a(),
        player_token_account_owner: player_a(),
        player_token_account_mint: mint_address(s),
        vault_owner: vault_owner(s),
        reward_token_mint: mint_address(s),
    }
}

fn withdraw_accounts(s: &CustodyState) -> WithdrawTokens {
    WithdrawTokens {
        player: player_a(),
        vault_owner: vault_owner(s),
        reward_token_mint: mint_address(s),
    }
}

#[test]
fn create_mint_sets_asset_and_metadata() {
    let s = created_state();
    let a = s.asset.as_ref().unwrap();
    assert_eq!(a.supply, 0);
    assert_eq!(a.decimals, DECIMALS);
    assert_eq!(a.address, a.authority);
    let m = s.registry.record.as_ref().unwrap();
    assert_eq!(m.name, b"Reward".to_vec());
    assert_eq!(m.symbol, b"RWD".to_vec());
    assert_eq!(m.uri, b"ipfs://x".to_vec());
    assert!(m.is_mutable);
    assert_eq!(m.update_authority, a.authority);
}

#[test]
fn metadata_record_address_matches_the_registry() {
    let s = created_state();
    let m = s.registry.record.as_ref().unwrap();
    let key = anchor_lang::prelude::Pubkey::from(mint_address(&s));
    let (expected, bump) = mpl_token_metadata::accounts::Metadata::find_pda(&key);
    assert_eq!(m.record_address, expected.to_bytes());
    assert_eq!(m.record_disambiguator, bump);
}

#[test]
fn create_mint_twice_fails_already_attached() {
    let mut s = created_state();
    let r = s.create_mint(
        &CreateMint { signer: player_a() },
        &b"ipfs://y".to_vec(),
        &b"Other".to_vec(),
        &b"OTH".to_vec(),
    );
    assert_eq!(r, Err(CustodyError::AlreadyAttached));
    let m = s.registry.record.as_ref().unwrap();
    assert_eq!(m.name, b"Reward".to_vec());
}

#[test]
fn attach_twice_keeps_the_first_record() {
    let mut reg = MetadataRegistry::new();
    let mint = [3u8; 32];
    let auth = [4u8; 32];
    let first = reg.attach(
        &mint,
        &auth,
        &b"Reward".to_vec(),
        &b"RWD".to_vec(),
        &b"ipfs://x".to_vec(),
    );
    assert_eq!(first, Ok(()));
    let second = reg.attach(
        &mint,
        &auth,
        &b"Other".to_vec(),
        &b"OTH".to_vec(),
        &b"ipfs://y".to_vec(),
    );
    assert_eq!(second, Err(CustodyError::AlreadyAttached));
    let m = reg.record.as_ref().unwrap();
    assert_eq!(m.name, b"Reward".to_vec());
    assert_eq!(m.symbol, b"RWD".to_vec());
    assert_eq!(m.uri, b"ipfs://x".to_vec());
}

#[test]
fn over_long_fields_are_rejected() {
    let mut s = CustodyState::new(pid());
    let long_name = vec![b'a'; 33];
    let r = s.create_mint(
        &CreateMint { signer: player_a() },
        &b"ipfs://x".to_vec(),
        &long_name,
        &b"RWD".to_vec(),
    );
    assert_eq!(r, Err(CustodyError::FieldTooLong));
    assert!(s.registry.record.is_none());
    assert!(s.asset.is_none());
}

#[test]
fn scenario_mint_deposit_withdraw() {
    let mut s = created_state();
    let r = s.mint_tokens(
        &MintTokens { player: player_a(), reward_token_mint: mint_address(&s) },
        100,
    );
    assert_eq!(r, Ok(()));
    assert_eq!(s.holder_balance(&player_a()), 100);
    assert_eq!(s.total_supply(), 100);

    let r = s.deposit_tokens(&deposit_accounts(&s), 40);
    assert_eq!(r, Ok(()));
    assert_eq!(s.holder_balance(&player_a()), 60);
    assert_eq!(s.holder_balance(&vault_owner(&s)), 40);
    assert_eq!(s.total_supply(), 100);

    let r = s.withdraw_tokens(&withdraw_accounts(&s), 40);
    assert_eq!(r, Ok(()));
    assert_eq!(s.holder_balance(&player_a()), 100);
    assert_eq!(s.holder_balance(&vault_owner(&s)), 0);
    assert_eq!(s.total_supply(), 100);

    let r = s.withdraw_tokens(&withdraw_accounts(&s), 1);
    assert_eq!(r, Err(CustodyError::InsufficientBalance));
    assert_eq!(s.holder_balance(&player_a()), 100);
}

#[test]
fn supply_accumulates_over_mints() {
    let mut s = created_state();
    let accounts = MintTokens { player: player_a(), reward_token_mint: mint_address(&s) };
    for amount in [5u64, 7, 11] {
        let r = s.mint_tokens(&accounts, amount);
        assert_eq!(r, Ok(()));
    }
    assert_eq!(s.total_supply(), 23);
    assert_eq!(s.holder_balance(&player_a()), 23);
}

#[test]
fn withdraw_with_foreign_vault_owner_fails() {
    let mut s = created_state();
    let r = s.mint_tokens(
        &MintTokens { player: player_a(), reward_token_mint: mint_address(&s) },
        10,
    );
    assert_eq!(r, Ok(()));
    let mut forged = [9u8; 32];
    if forged == vault_owner(&s) {
        forged = [8u8; 32];
    }
    let accounts = WithdrawTokens {
        player: player_a(),
        vault_owner: forged,
        reward_token_mint: mint_address(&s),
    };
    for amount in [0u64, 1, 10] {
        let r = s.withdraw_tokens(&accounts, amount);
        assert_eq!(r, Err(CustodyError::AuthorityMismatch));
    }
    assert_eq!(s.holder_balance(&player_a()), 10);
    assert_eq!(s.total_supply(), 10);
}

#[test]
fn mint_with_foreign_mint_account_fails() {
    let mut s = created_state();
    let mut forged = [9u8; 32];
    if forged == mint_address(&s) {
        forged = [8u8; 32];
    }
    let r = s.mint_tokens(&MintTokens { player: player_a(), reward_token_mint: forged }, 5);
    assert_eq!(r, Err(CustodyError::AuthorityMismatch));
    assert_eq!(s.total_supply(), 0);
}

#[test]
fn deposit_more_than_held_fails_and_changes_nothing() {
    let mut s = created_state();
    let r = s.mint_tokens(
        &MintTokens { player: player_a(), reward_token_mint: mint_address(&s) },
        30,
    );
    assert_eq!(r, Ok(()));
    let r = s.deposit_tokens(&deposit_accounts(&s), 31);
    assert_eq!(r, Err(CustodyError::InsufficientBalance));
    assert_eq!(s.holder_balance(&player_a()), 30);
    assert_eq!(s.holder_balance(&vault_owner(&s)), 0);
}

#[test]
fn deposit_with_foreign_holder_ledger_fails() {
    let mut s = created_state();
    let r = s.mint_tokens(
        &MintTokens { player: player_a(), reward_token_mint: mint_address(&s) },
        30,
    );
    assert_eq!(r, Ok(()));
    let mut accounts = deposit_accounts(&s);
    accounts.player_token_account_owner = [2u8; 32];
    let r = s.deposit_tokens(&accounts, 10);
    assert_eq!(r, Err(CustodyError::LedgerMismatch));
    assert_eq!(s.holder_balance(&player_a()), 30);
}

#[test]
fn minting_past_the_supply_counter_fails() {
    let mut s = created_state();
    let accounts = MintTokens { player: player_a(), reward_token_mint: mint_address(&s) };
    let r = s.mint_tokens(&accounts, u64::MAX);
    assert_eq!(r, Ok(()));
    let r = s.mint_tokens(&accounts, 1);
    assert_eq!(r, Err(CustodyError::Overflow));
    assert_eq!(s.total_supply(), u64::MAX);
}

#[test]
fn unauthorized_credential_cannot_mint() {
    let mut book = LedgerBook::new();
    let to = player_a();
    let created = book.get_or_create(&to);
    assert!(created);
    let wrong = Credential::Signer { address: [5u8; 32] };
    let authority = [6u8; 32];
    let r = book.mint(&authority, 0, &to, 10, &wrong, &pid());
    assert_eq!(r, Err(CustodyError::Unauthorized));
    assert_eq!(book.balance(&to), 0);
}

#[test]
fn unauthorized_signer_cannot_transfer() {
    let mut book = LedgerBook::new();
    let from = player_a();
    let to = [2u8; 32];
    book.get_or_create(&from);
    book.get_or_create(&to);
    let own = Credential::Signer { address: from };
    let r = book.mint(&from, 0, &from, 10, &own, &pid());
    assert_eq!(r, Ok(10));
    let wrong = Credential::Signer { address: to };
    let r = book.transfer(&from, &to, 5, &wrong, &pid());
    assert_eq!(r, Err(CustodyError::Unauthorized));
    assert_eq!(book.balance(&from), 10);
    assert_eq!(book.balance(&to), 0);
}

#[test]
fn get_or_create_reports_creation_once() {
    let mut book = LedgerBook::new();
    assert!(book.get_or_create(&player_a()));
    assert!(!book.get_or_create(&player_a()));
    assert_eq!(book.balance(&player_a()), 0);
}

#[test]
fn zero_amount_deposit_succeeds_and_moves_nothing() {
    let mut s = created_state();
    let r = s.deposit_tokens(&deposit_accounts(&s), 0);
    assert_eq!(r, Ok(()));
    assert_eq!(s.holder_balance(&player_a()), 0);
    assert_eq!(s.holder_balance(&vault_owner(&s)), 0);
    assert_eq!(s.total_supply(), 0);
}

#[test]
fn fields_at_the_limits_are_accepted() {
    let mut s = CustodyState::new(pid());
    let r = s.create_mint(
        &CreateMint { signer: player_a() },
        &vec![b'u'; 200],
        &vec![b'n'; 32],
        &vec![b's'; 10],
    );
    assert_eq!(r, Ok(()));
    let m = s.registry.record.as_ref().unwrap();
    assert_eq!(m.uri.len(), 200);
    assert_eq!(m.name.len(), 32);
    assert_eq!(m.symbol.len(), 10);
}
