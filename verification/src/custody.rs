use vstd::prelude::*;

use crate::addresses::{
    addr_eq, derive_mint_authority, derive_vault_authority, derived_address_of,
    metadata_address_of, mint_authority_credential, mint_authority_seeds, vault_credential,
    vault_seeds, Credential,
};
use crate::errors::CustodyError;
use crate::ledger::LedgerBook;
use crate::metadata::{fields_within_limits, MetadataRegistry};

verus! {

/// The fixed decimal precision of the asset, set at creation and immutable.
pub const DECIMALS: u8 = 9;

/// The single mintable token: its account address (the derived "reward"
/// address), the mint authority that alone may increase supply, the
/// disambiguator its derivation settled on, its fixed decimal precision and
/// its total-supply counter.
#[derive(Clone, Copy)]
pub struct Asset {
    pub address: [u8; 32],
    pub authority: [u8; 32],
    pub authority_disambiguator: u8,
    pub decimals: u8,
    pub supply: u64,
}

/// The accounts a caller supplies to `create_mint`: the paying signer.
#[derive(Clone, Copy)]
pub struct CreateMint {
    pub signer: [u8; 32],
}

/// The accounts a caller supplies to `mint_tokens`: the caller and the mint
/// account they claim is the asset.
#[derive(Clone, Copy)]
pub struct MintTokens {
    pub player: [u8; 32],
    pub reward_token_mint: [u8; 32],
}

/// The accounts a caller supplies to `deposit_tokens`: the caller, the
/// owner and asset recorded on the holder ledger they name, the owner of
/// the vault ledger they name, and the mint account they claim is the
/// asset.
#[derive(Clone, Copy)]
pub struct DepositTokens {
    pub player: [u8; 32],
    pub player_token_account_owner: [u8; 32],
    pub player_token_account_mint: [u8; 32],
    pub vault_owner: [u8; 32],
    pub reward_token_mint: [u8; 32],
}

/// The accounts a caller supplies to `withdraw_tokens`: the caller, the
/// owner of the vault ledger they name, and the mint account they claim is
/// the asset.
#[derive(Clone, Copy)]
pub struct WithdrawTokens {
    pub player: [u8; 32],
    pub vault_owner: [u8; 32],
    pub reward_token_mint: [u8; 32],
}

/// The custody module's state: the program id its addresses derive under,
/// the asset once created, the metadata registry binding, and the book of
/// balance records.
pub struct CustodyState {
    pub program_id: [u8; 32],
    pub asset: Option<Asset>,
    pub registry: MetadataRegistry,
    pub book: LedgerBook,
}

impl CustodyState {
    /// What the mint-authority derivation yields under this program id.
    pub open spec fn mint_derivation(self) -> Option<(Seq<u8>, u8)> {
        derived_address_of(mint_authority_seeds(), self.program_id@)
    }

    /// What the vault-authority derivation yields for a mint key under this
    /// program id.
    pub open spec fn vault_derivation_of(self, mint: Seq<u8>) -> Option<(Seq<u8>, u8)> {
        derived_address_of(vault_seeds(mint), self.program_id@)
    }

    /// Well-formedness: owners are unique in the book; before creation
    /// nothing else exists; once created, the asset's address and authority
    /// are the derived mint authority, its decimals are the configured
    /// constant, a metadata record is bound, and the supply counter equals
    /// the sum of every balance in the book (conservation).
    pub open spec fn wf(self) -> bool {
        &&& self.book.owners_unique()
        &&& (self.asset is None ==> self.registry.record is None && self.book.entries@.len()
            == 0)
        &&& (self.asset matches Some(a) ==> (self.mint_derivation() == Some(
            (a.address@, a.authority_disambiguator),
        ) && a.authority@ == a.address@ && a.decimals == DECIMALS && a.supply
            == self.book.total() && self.registry.record is Some))
    }

    /// A fresh module under a program id: no asset, no metadata, no
    /// ledgers.
    pub fn new(program_id: [u8; 32]) -> (s: CustodyState)
        ensures
            s.wf(),
            s.program_id@ == program_id@,
            s.asset is None,
            s.registry.record is None,
            s.book.entries@.len() == 0,
    {
        CustodyState {
            program_id,
            asset: None,
            registry: MetadataRegistry::new(),
            book: LedgerBook::new(),
        }
    }

    /// Whether the asset has been created.
    pub fn has_mint(&self) -> (b: bool)
        ensures
            b == (self.asset is Some),
    {
        self.asset.is_some()
    }

    /// The asset's total supply; zero before creation.
    pub fn total_supply(&self) -> (s: u64)
        ensures
            (match self.asset {
                Some(a) => s == a.supply,
                None => s == 0,
            }),
    {
        match &self.asset {
            Some(a) => a.supply,
            None => 0,
        }
    }

    /// Reads an owner's balance; an owner without a ledger holds nothing.
    pub fn holder_balance(&self, owner: &[u8; 32]) -> (b: u64)
        requires
            self.wf(),
        ensures
            b as int == self.book.balance_of(owner@),
    {
        self.book.balance(owner)
    }

    /// What `create_mint` returns, by the order its checks run in.
    pub open spec fn create_mint_outcome(self, name: Seq<u8>, symbol: Seq<u8>, uri: Seq<u8>) -> Result<
        (),
        CustodyError,
    > {
        if self.mint_derivation() is None {
            Err(CustodyError::DerivationExhausted)
        } else if self.asset is Some {
            Err(CustodyError::AlreadyAttached)
        } else if !fields_within_limits(name, symbol, uri) {
            Err(CustodyError::FieldTooLong)
        } else {
            Ok(())
        }
    }

    /// Creates the asset and binds its metadata record, all or nothing.
    /// The mint authority is derived from the "reward" tag and becomes both
    /// the asset's address and its authority; supply starts at zero; the
    /// record holds exactly the given fields, is mutable, and its update
    /// authority is the mint authority. A second call fails with
    /// `AlreadyAttached` and changes nothing.
    pub fn create_mint(
        &mut self,
        accounts: &CreateMint,
        uri: &Vec<u8>,
        name: &Vec<u8>,
        symbol: &Vec<u8>,
    ) -> (r: Result<(), CustodyError>)
        requires
            old(self).wf(),
        ensures
            final(self).wf(),
            final(self).program_id@ == old(self).program_id@,
            r == old(self).create_mint_outcome(name@, symbol@, uri@),
            (r is Err ==> *final(self) == *old(self)),
            (r is Ok ==> (final(self).asset matches Some(a)
                && old(self).mint_derivation() == Some((a.address@, a.authority_disambiguator))
                && a.authority@ == a.address@
                && a.decimals == DECIMALS
                && a.supply == 0
                && (final(self).registry.record matches Some(m)
                    && m.name@ == name@
                    && m.symbol@ == symbol@
                    && m.uri@ == uri@
                    && m.is_mutable
                    && m.update_authority@ == a.authority@
                    && (m.record_address@, m.record_disambiguator) == metadata_address_of(a.address@))
                && final(self).book.entries@ == old(self).book.entries@)),
    {
        let d = match derive_mint_authority(&self.program_id) {
            Ok(d) => d,
            Err(e) => {
                return Err(e);
            },
        };
        if self.asset.is_some() {
            return Err(CustodyError::AlreadyAttached);
        }
        match self.registry.attach(&d.address, &d.address, name, symbol, uri) {
            Ok(_) => {},
            Err(e) => {
                return Err(e);
            },
        }
        self.asset = Some(
            Asset {
                address: d.address,
                authority: d.address,
                authority_disambiguator: d.disambiguator,
                decimals: DECIMALS,
                supply: 0,
            },
        );
        proof {
            assert(self.book.total() == 0);
        }
        Ok(())
    }

    /// What `mint_tokens` returns, by the order its checks run in.
    pub open spec fn mint_outcome(self, accounts: MintTokens, amount: u64) -> Result<
        (),
        CustodyError,
    >
        recommends
            self.asset is Some,
    {
        match self.asset {
            None => Err(CustodyError::AuthorityMismatch),
            Some(a) => {
                if accounts.reward_token_mint@ != a.address@ {
                    Err(CustodyError::AuthorityMismatch)
                } else if a.supply + amount > u64::MAX {
                    Err(CustodyError::Overflow)
                } else {
                    Ok(())
                }
            },
        }
    }

    /// Mints `amount` new units to the caller. Re-derives the mint
    /// authority, confirms the named mint account is the asset and that the
    /// asset's recorded authority is the re-derived address, lazily creates
    /// the caller's ledger, and mints under the module's own derived
    /// credential. On success supply and the caller's balance both grow by
    /// exactly `amount`; any failure leaves the state unchanged.
    pub fn mint_tokens(&mut self, accounts: &MintTokens, amount: u64) -> (r: Result<
        (),
        CustodyError,
    >)
        requires
            old(self).wf(),
            old(self).asset is Some,
        ensures
            final(self).wf(),
            final(self).program_id@ == old(self).program_id@,
            r == old(self).mint_outcome(*accounts, amount),
            (r is Err ==> *final(self) == *old(self)),
            (r is Ok ==> (old(self).asset matches Some(oa) && final(self).asset matches Some(na)
                && na.supply == oa.supply + amount
                && na.address@ == oa.address@
                && na.authority@ == oa.authority@
                && na.authority_disambiguator == oa.authority_disambiguator
                && na.decimals == oa.decimals
                && final(self).book.balance_of(accounts.player@)
                    == old(self).book.balance_of(accounts.player@) + amount
                && (forall|o: Seq<u8>|
                    o != accounts.player@
                        ==> final(self).book.balance_of(o) == old(self).book.balance_of(o))
                && final(self).registry.record == old(self).registry.record)),
    {
        let a = match &self.asset {
            Some(a) => *a,
            None => {
                return unreached();
            },
        };
        let d = match derive_mint_authority(&self.program_id) {
            Ok(d) => d,
            Err(_) => {
                return unreached();
            },
        };
        if !(addr_eq(&accounts.reward_token_mint, &a.address) && addr_eq(&d.address, &a.authority))
            {
            return Err(CustodyError::AuthorityMismatch);
        }
        if amount > u64::MAX - a.supply {
            return Err(CustodyError::Overflow);
        }
        self.book.get_or_create(&accounts.player);
        let cred = mint_authority_credential(a.authority_disambiguator);
        let pid = self.program_id;
        let new_supply = match self.book.mint(
            &a.authority,
            a.supply,
            &accounts.player,
            amount,
            &cred,
            &pid,
        ) {
            Ok(s) => s,
            Err(_) => {
                return unreached();
            },
        };
        self.asset = Some(
            Asset {
                address: a.address,
                authority: a.authority,
                authority_disambiguator: a.authority_disambiguator,
                decimals: a.decimals,
                supply: new_supply,
            },
        );
        Ok(())
    }

    /// What `deposit_tokens` returns, by the order its checks run in.
    pub open spec fn deposit_outcome(self, accounts: DepositTokens, amount: u64) -> Result<
        (),
        CustodyError,
    >
        recommends
            self.asset is Some,
    {
        match self.asset {
            None => Err(CustodyError::AuthorityMismatch),
            Some(a) => {
                if accounts.reward_token_mint@ != a.address@ {
                    Err(CustodyError::AuthorityMismatch)
                } else {
                    match self.vault_derivation_of(a.address@) {
                        None => Err(CustodyError::DerivationExhausted),
                        Some(v) => {
                            if accounts.vault_owner@ != v.0 {
                                Err(CustodyError::AuthorityMismatch)
                            } else if accounts.player_token_account_owner@ != accounts.player@
                                || accounts.player_token_account_mint@ != a.address@ {
                                Err(CustodyError::LedgerMismatch)
                            } else if amount > self.book.balance_of(accounts.player@) {
                                Err(CustodyError::InsufficientBalance)
                            } else {
                                Ok(())
                            }
                        },
                    }
                }
            },
        }
    }

    /// Moves `amount` from the caller's ledger into the vault, authorized
    /// by the caller's own signature. Re-derives the vault authority and
    /// confirms the named vault ledger's owner is exactly it, confirms the
    /// named holder ledger belongs to the caller and to this asset, creates
    /// the vault ledger lazily, and transfers. On success the caller's
    /// balance shrinks and the vault's grows by exactly `amount`; any
    /// failure leaves the state unchanged.
    pub fn deposit_tokens(&mut self, accounts: &DepositTokens, amount: u64) -> (r: Result<
        (),
        CustodyError,
    >)
        requires
            old(self).wf(),
            old(self).asset is Some,
        ensures
            final(self).wf(),
            final(self).program_id@ == old(self).program_id@,
            final(self).asset == old(self).asset,
            final(self).registry.record == old(self).registry.record,
            r == old(self).deposit_outcome(*accounts, amount),
            (r is Err ==> *final(self) == *old(self)),
            (r is Ok ==> ((accounts.player@ == accounts.vault_owner@ ==> (forall|o: Seq<u8>|
                final(self).book.balance_of(o) == old(self).book.balance_of(o)))
                && (accounts.player@ != accounts.vault_owner@
                    ==> (final(self).book.balance_of(accounts.player@)
                        == old(self).book.balance_of(accounts.player@) - amount
                    && final(self).book.balance_of(accounts.vault_owner@)
                        == old(self).book.balance_of(accounts.vault_owner@) + amount))
                && (forall|o: Seq<u8>|
                    o != accounts.player@ && o != accounts.vault_owner@
                        ==> final(self).book.balance_of(o) == old(self).book.balance_of(o))
                && final(self).book.total() == old(self).book.total())),
    {
        let a = match &self.asset {
            Some(a) => *a,
            None => {
                return unreached();
            },
        };
        if !addr_eq(&accounts.reward_token_mint, &a.address) {
            return Err(CustodyError::AuthorityMismatch);
        }
        let pid = self.program_id;
        let v = match derive_vault_authority(&a.address, &pid) {
            Ok(v) => v,
            Err(e) => {
                return Err(e);
            },
        };
        if !addr_eq(&accounts.vault_owner, &v.address) {
            return Err(CustodyError::AuthorityMismatch);
        }
        if !(addr_eq(&accounts.player_token_account_owner, &accounts.player) && addr_eq(
            &accounts.player_token_account_mint,
            &a.address,
        )) {
            return Err(CustodyError::LedgerMismatch);
        }
        let pb = self.book.balance(&accounts.player);
        if amount > pb {
            return Err(CustodyError::InsufficientBalance);
        }
        self.book.get_or_create(&accounts.player);
        self.book.get_or_create(&accounts.vault_owner);
        let cred = Credential::Signer { address: accounts.player };
        match self.book.transfer(&accounts.player, &accounts.vault_owner, amount, &cred, &pid) {
            Ok(_) => Ok(()),
            Err(_) => unreached(),
        }
    }

    /// What `withdraw_tokens` returns, by the order its checks run in.
    pub open spec fn withdraw_outcome(self, accounts: WithdrawTokens, amount: u64) -> Result<
        (),
        CustodyError,
    >
        recommends
            self.asset is Some,
    {
        match self.asset {
            None => Err(CustodyError::AuthorityMismatch),
            Some(a) => {
                if accounts.reward_token_mint@ != a.address@ {
                    Err(CustodyError::AuthorityMismatch)
                } else {
                    match self.vault_derivation_of(a.address@) {
                        None => Err(CustodyError::DerivationExhausted),
                        Some(v) => {
                            if accounts.vault_owner@ != v.0 {
                                Err(CustodyError::AuthorityMismatch)
                            } else if amount > self.book.balance_of(accounts.vault_owner@) {
                                Err(CustodyError::InsufficientBalance)
                            } else {
                                Ok(())
                            }
                        },
                    }
                }
            },
        }
    }

    /// Moves `amount` from the vault into the caller's ledger, authorized
    /// not by the caller but by the module's re-derived vault credential,
    /// whose disambiguator matches the one the vault's derivation settled
    /// on. The security-critical check: the named vault ledger's owner must
    /// be exactly the re-derived vault authority, else `AuthorityMismatch`
    /// for any amount. The caller's ledger is created lazily. On success
    /// the vault's balance shrinks and the caller's grows by exactly
    /// `amount`; any failure leaves the state unchanged.
    pub fn withdraw_tokens(&mut self, accounts: &WithdrawTokens, amount: u64) -> (r: Result<
        (),
        CustodyError,
    >)
        requires
            old(self).wf(),
            old(self).asset is Some,
        ensures
            final(self).wf(),
            final(self).program_id@ == old(self).program_id@,
            final(self).asset == old(self).asset,
            final(self).registry.record == old(self).registry.record,
            r == old(self).withdraw_outcome(*accounts, amount),
            (r is Err ==> *final(self) == *old(self)),
            (r is Ok ==> ((accounts.player@ == accounts.vault_owner@ ==> (forall|o: Seq<u8>|
                final(self).book.balance_of(o) == old(self).book.balance_of(o)))
                && (accounts.player@ != accounts.vault_owner@
                    ==> (final(self).book.balance_of(accounts.vault_owner@)
                        == old(self).book.balance_of(accounts.vault_owner@) - amount
                    && final(self).book.balance_of(accounts.player@)
                        == old(self).book.balance_of(accounts.player@) + amount))
                && (forall|o: Seq<u8>|
                    o != accounts.player@ && o != accounts.vault_owner@
                        ==> final(self).book.balance_of(o) == old(self).book.balance_of(o))
                && final(self).book.total() == old(self).book.total())),
    {
        let a = match &self.asset {
            Some(a) => *a,
            None => {
                return unreached();
            },
        };
        if !addr_eq(&accounts.reward_token_mint, &a.address) {
            return Err(CustodyError::AuthorityMismatch);
        }
        let pid = self.program_id;
        let v = match derive_vault_authority(&a.address, &pid) {
            Ok(v) => v,
            Err(e) => {
                return Err(e);
            },
        };
        if !addr_eq(&accounts.vault_owner, &v.address) {
            return Err(CustodyError::AuthorityMismatch);
        }
        let vb = self.book.balance(&accounts.vault_owner);
        if amount > vb {
            return Err(CustodyError::InsufficientBalance);
        }
        self.book.get_or_create(&accounts.player);
        self.book.get_or_create(&accounts.vault_owner);
        let cred = vault_credential(&a.address, v.disambiguator);
        match self.book.transfer(&accounts.vault_owner, &accounts.player, amount, &cred, &pid) {
            Ok(_) => Ok(()),
            Err(_) => unreached(),
        }
    }
}

} // verus!
