use reward_custody::addresses::{derive_mint_authority, derive_vault_authority};

fn pid() -> [u8; 32] {
    [7u8; 32]
}

#[test]
fn derive_is_deterministic() {
    let tag = b"reward".to_vec();
    let context: Vec<Vec<u8>> = Vec::new();
    let a = reward_custody::addresses::derive(&tag, &context, &pid()).unwrap();
    let b = reward_custody::addresses::derive(&tag, &context, &pid()).unwrap();
    assert_eq!(a.address, b.address);
    assert_eq!(a.disambiguator, b.disambiguator);
}

#[test]
fn derive_vault_is_deterministic() {
    let mint = [3u8; 32];
    let a = derive_vault_authority(&mint, &pid()).unwrap();
    let b = derive_vault_authority(&mint, &pid()).unwrap();
    assert_eq!(a.address, b.address);
    assert_eq!(a.disambiguator, b.disambiguator);
}

#[test]
fn derive_matches_the_ledgers_own_search() {
    let program = anchor_lang::prelude::Pubkey::from(pid());
    let (expected, bump) =
        anchor_lang::prelude::Pubkey::find_program_address(&[b"reward"], &program);
    let d = derive_mint_authority(&pid()).unwrap();
    assert_eq!(d.address, expected.to_bytes());
    assert_eq!(d.disambiguator, bump);
}

#[test]
fn vault_derivation_uses_the_mint_as_context() {
    let mint = [3u8; 32];
    let program = anchor_lang::prelude::Pubkey::from(pid());
    let (expected, bump) =
        anchor_lang::prelude::Pubkey::find_program_address(&[b"vault", &mint], &program);
    let d = derive_vault_authority(&mint, &pid()).unwrap();
    assert_eq!(d.address, expected.to_bytes());
    assert_eq!(d.disambiguator, bump);
    let reward = derive_mint_authority(&pid()).unwrap();
    assert_ne!(d.address, reward.address);
}
