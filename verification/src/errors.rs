use vstd::prelude::*;

verus! {

/// Every way an operation of this module can fail. Each error aborts the
/// whole operation: no state change is observable when one is returned.
#[derive(Clone, Copy, Debug, PartialEq, Eq, Structural)]
pub enum CustodyError {
    /// The derivation engine found no disambiguator byte that yields an
    /// address outside the ordinary signer-key space.
    DerivationExhausted,
    /// A credential does not authorize spending from, or minting to, the
    /// ledger it was presented for.
    Unauthorized,
    /// A caller-supplied account is not the one re-derivation predicts.
    AuthorityMismatch,
    /// A caller-supplied holder ledger does not belong to the caller or is
    /// not a ledger of this asset.
    LedgerMismatch,
    /// A transfer asks for more than the source ledger holds.
    InsufficientBalance,
    /// Minting the requested amount would overflow the supply counter.
    Overflow,
    /// A metadata record is already bound to the asset.
    AlreadyAttached,
    /// A metadata field exceeds the registry's fixed length limit.
    FieldTooLong,
}

} // verus!
