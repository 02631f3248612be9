use vstd::prelude::*;

use crate::errors::CustodyError;

verus! {

/// Domain-separation tag of the mint authority: the bytes of "reward".
pub open spec fn reward_tag() -> Seq<u8> {
    seq![114u8, 101u8, 119u8, 97u8, 114u8, 100u8]
}

/// Domain-separation tag of the vault authority: the bytes of "vault".
pub open spec fn vault_tag() -> Seq<u8> {
    seq![118u8, 97u8, 117u8, 108u8, 116u8]
}

/// The seed list handed to the derivation engine: the domain-separation tag
/// followed by the context byte strings.
pub open spec fn seeds_of(tag: Seq<u8>, context: Seq<Seq<u8>>) -> Seq<Seq<u8>> {
    seq![tag] + context
}

/// Seeds of the mint authority: tag "reward", no context.
pub open spec fn mint_authority_seeds() -> Seq<Seq<u8>> {
    seeds_of(reward_tag(), seq![])
}

/// Seeds of the vault authority: tag "vault", context = the asset identifier.
pub open spec fn vault_seeds(mint: Seq<u8>) -> Seq<Seq<u8>> {
    seeds_of(vault_tag(), seq![mint])
}

/// What `Pubkey::try_find_program_address` returns for a seed list and a
/// program id: a pure function of the two (a SHA-256-based search), so the
/// same inputs always yield the same address and disambiguator. `None` means
/// no disambiguator byte yields an address outside the signer-key space.
pub uninterp spec fn derived_address_of(seeds: Seq<Seq<u8>>, program_id: Seq<u8>) -> Option<
    (Seq<u8>, u8),
>;

/// What `mpl_token_metadata::accounts::Metadata::find_pda` returns for a
/// mint key: the derived address of the asset's metadata record, with its
/// disambiguator, a pure function of the mint key.
pub uninterp spec fn metadata_address_of(mint: Seq<u8>) -> (Seq<u8>, u8);

/// Relies on `Pubkey::try_find_program_address` (anchor_lang's re-export of
/// solana_program): searches disambiguator bytes from 255 downward for an
/// address off the ed25519 curve; deterministic in (seeds, program id);
/// returns `None` when no disambiguator works or a seed is over-long.
#[verifier::external_body]
fn try_find_derived_address(seeds: &Vec<Vec<u8>>, program_id: &[u8; 32]) -> (r: Option<
    ([u8; 32], u8),
>)
    ensures
        r is None <==> derived_address_of(seeds.deep_view(), program_id@) is None,
        (r matches Some(p) ==> derived_address_of(seeds.deep_view(), program_id@) == Some(
            (p.0@, p.1),
        )),
{
    let id = anchor_lang::prelude::Pubkey::from(*program_id);
    let refs: Vec<&[u8]> = seeds.iter().map(|s| s.as_slice()).collect();
    anchor_lang::prelude::Pubkey::try_find_program_address(&refs, &id).map(
        |p: (anchor_lang::prelude::Pubkey, u8)| (p.0.to_bytes(), p.1),
    )
}

/// Relies on `mpl_token_metadata::accounts::Metadata::find_pda`: the metadata
/// registry's derived address for a mint key, a pure function of it. The call
/// searches disambiguator bytes the way the address derivation does and does
/// not return in the statistically improbable case that none fits.
#[verifier::external_body]
pub(crate) fn find_metadata_address(mint: &[u8; 32]) -> (r: ([u8; 32], u8))
    ensures
        (r.0@, r.1) == metadata_address_of(mint@),
{
    let key = anchor_lang::prelude::Pubkey::from(*mint);
    let (addr, disambiguator) = mpl_token_metadata::accounts::Metadata::find_pda(&key);
    (addr.to_bytes(), disambiguator)
}

/// The executable bytes of the "reward" tag.
pub fn reward_tag_bytes() -> (v: Vec<u8>)
    ensures
        v@ == reward_tag(),
{
    let mut v: Vec<u8> = Vec::new();
    v.push(114);
    v.push(101);
    v.push(119);
    v.push(97);
    v.push(114);
    v.push(100);
    proof {
        assert(v@ =~= reward_tag());
    }
    v
}

/// The executable bytes of the "vault" tag.
pub fn vault_tag_bytes() -> (v: Vec<u8>)
    ensures
        v@ == vault_tag(),
{
    let mut v: Vec<u8> = Vec::new();
    v.push(118);
    v.push(97);
    v.push(117);
    v.push(108);
    v.push(116);
    proof {
        assert(v@ =~= vault_tag());
    }
    v
}

/// Copies an address into a byte vector.
pub fn addr_to_vec(a: &[u8; 32]) -> (v: Vec<u8>)
    ensures
        v@ == a@,
{
    let mut v: Vec<u8> = Vec::new();
    let mut i: usize = 0;
    while i < 32
        invariant
            0 <= i <= 32,
            v@.len() == i,
            forall|j: int| 0 <= j < i ==> v@[j] == a@[j],
        decreases 32 - i,
    {
        v.push(a[i]);
        i = i + 1;
    }
    proof {
        assert(v@ =~= a@);
    }
    v
}

/// An address the module controls by construction: derived from a tag and
/// context, together with the disambiguator the search settled on.
#[derive(Clone, Copy)]
pub struct DerivedAddress {
    pub address: [u8; 32],
    pub disambiguator: u8,
}

/// True of two byte arrays exactly when they hold the same bytes.
pub fn addr_eq(a: &[u8; 32], b: &[u8; 32]) -> (r: bool)
    ensures
        r == (a@ == b@),
{
    let mut i: usize = 0;
    while i < 32
        invariant
            0 <= i <= 32,
            forall|j: int| 0 <= j < i ==> a@[j] == b@[j],
        decreases 32 - i,
    {
        if a[i] != b[i] {
            return false;
        }
        i = i + 1;
    }
    proof {
        assert(a@ =~= b@);
    }
    true
}

/// Copies a byte vector.
pub fn copy_bytes(src: &Vec<u8>) -> (out: Vec<u8>)
    ensures
        out@ == src@,
{
    let mut out: Vec<u8> = Vec::new();
    let mut i: usize = 0;
    while i < src.len()
        invariant
            0 <= i <= src@.len(),
            out@ == src@.take(i as int),
        decreases src@.len() - i,
    {
        out.push(src[i]);
        proof {
            assert(out@ =~= src@.take(i as int + 1));
        }
        i = i + 1;
    }
    proof {
        assert(src@.take(src@.len() as int) =~= src@);
    }
    out
}

/// Builds the executable seed list for a tag and context.
fn seeds_vec(tag: &Vec<u8>, context: &Vec<Vec<u8>>) -> (s: Vec<Vec<u8>>)
    ensures
        s.deep_view() == seeds_of(tag@, context.deep_view()),
{
    let mut s: Vec<Vec<u8>> = Vec::new();
    s.push(copy_bytes(tag));
    let mut i: usize = 0;
    while i < context.len()
        invariant
            0 <= i <= context@.len(),
            s@.len() == 1 + i,
            s@[0]@ == tag@,
            forall|j: int| 0 <= j < i ==> s@[j + 1]@ == context@[j]@,
        decreases context@.len() - i,
    {
        s.push(copy_bytes(&context[i]));
        i = i + 1;
    }
    proof {
        assert forall|j: int| 0 <= j < s.deep_view().len() implies s.deep_view()[j] == seeds_of(
            tag@,
            context.deep_view(),
        )[j] by {
            assert(s.deep_view()[j] == s@[j]@);
            if j > 0 {
                assert(s@[j]@ == context@[j - 1]@);
                assert(context.deep_view()[j - 1] == context@[j - 1]@);
            }
        }
        assert(s.deep_view() =~= seeds_of(tag@, context.deep_view()));
    }
    s
}

/// The derivation engine's entry point: computes the derived authority
/// address for a domain-separation tag and context bytes, together with the
/// disambiguator for which the search settled. Deterministic: the result is
/// a function of (tag, context, program id) alone. Fails with
/// `DerivationExhausted` exactly when no disambiguator byte in range yields
/// an address outside the ordinary signer-key space.
pub fn derive(tag: &Vec<u8>, context: &Vec<Vec<u8>>, program_id: &[u8; 32]) -> (r: Result<
    DerivedAddress,
    CustodyError,
>)
    ensures
        (r matches Ok(d) ==> derived_address_of(seeds_of(tag@, context.deep_view()), program_id@)
            == Some((d.address@, d.disambiguator))),
        (r matches Err(e) ==> e == CustodyError::DerivationExhausted && derived_address_of(
            seeds_of(tag@, context.deep_view()),
            program_id@,
        ) is None),
{
    let seeds = seeds_vec(tag, context);
    match try_find_derived_address(&seeds, program_id) {
        Some(p) => Ok(DerivedAddress { address: p.0, disambiguator: p.1 }),
        None => Err(CustodyError::DerivationExhausted),
    }
}

/// Derives the mint authority: tag "reward", no context.
pub fn derive_mint_authority(program_id: &[u8; 32]) -> (r: Result<DerivedAddress, CustodyError>)
    ensures
        (r matches Ok(d) ==> derived_address_of(mint_authority_seeds(), program_id@) == Some(
            (d.address@, d.disambiguator),
        )),
        (r matches Err(e) ==> e == CustodyError::DerivationExhausted && derived_address_of(
            mint_authority_seeds(),
            program_id@,
        ) is None),
{
    let tag = reward_tag_bytes();
    let context: Vec<Vec<u8>> = Vec::new();
    proof {
        assert(context.deep_view() =~= Seq::<Seq<u8>>::empty());
        assert(seeds_of(tag@, context.deep_view()) =~= mint_authority_seeds());
    }
    derive(&tag, &context, program_id)
}

/// Derives the vault authority: tag "vault", context = the mint key.
pub fn derive_vault_authority(mint: &[u8; 32], program_id: &[u8; 32]) -> (r: Result<
    DerivedAddress,
    CustodyError,
>)
    ensures
        (r matches Ok(d) ==> derived_address_of(vault_seeds(mint@), program_id@) == Some(
            (d.address@, d.disambiguator),
        )),
        (r matches Err(e) ==> e == CustodyError::DerivationExhausted && derived_address_of(
            vault_seeds(mint@),
            program_id@,
        ) is None),
{
    let tag = vault_tag_bytes();
    let mut context: Vec<Vec<u8>> = Vec::new();
    context.push(addr_to_vec(mint));
    proof {
        assert(context@[0].deep_view() =~= context@[0]@);
        assert(context.deep_view() =~= seq![mint@]);
        assert(seeds_of(tag@, context.deep_view()) =~= vault_seeds(mint@));
    }
    derive(&tag, &context, program_id)
}

/// A capability under which the external ledger accepts a spend or a mint:
/// either the caller's own signature over their address, or a credential the
/// module manufactures for a derived address from the tag, context and
/// disambiguator that derive that address.
pub enum Credential {
    Signer { address: [u8; 32] },
    Derived { tag: Vec<u8>, context: Vec<Vec<u8>>, disambiguator: u8 },
}

impl Credential {
    /// Whether this credential authorizes acting as `owner` under the given
    /// program id: a signer credential authorizes its own address; a derived
    /// credential authorizes exactly the address its (tag, context) derive,
    /// and only with the disambiguator the derivation settled on.
    pub open spec fn authorizes(self, owner: Seq<u8>, program_id: Seq<u8>) -> bool {
        match self {
            Credential::Signer { address } => address@ == owner,
            Credential::Derived { tag, context, disambiguator } => derived_address_of(
                seeds_of(tag@, context.deep_view()),
                program_id,
            ) == Some((owner, disambiguator)),
        }
    }
}

/// Decides whether a credential authorizes acting as `owner`, re-deriving
/// the address for a derived credential.
pub fn authorizes_check(cred: &Credential, owner: &[u8; 32], program_id: &[u8; 32]) -> (r: bool)
    ensures
        r == cred.authorizes(owner@, program_id@),
{
    match cred {
        Credential::Signer { address } => addr_eq(address, owner),
        Credential::Derived { tag, context, disambiguator } => {
            let seeds = seeds_vec(tag, context);
            match try_find_derived_address(&seeds, program_id) {
                Some(p) => addr_eq(&p.0, owner) && p.1 == *disambiguator,
                None => false,
            }
        },
    }
}

/// Manufactures the signing credential of the mint authority from the
/// disambiguator the derivation settled on.
pub fn mint_authority_credential(disambiguator: u8) -> (c: Credential)
    ensures
        forall|owner: Seq<u8>, program_id: Seq<u8>|
            c.authorizes(owner, program_id) == (derived_address_of(
                mint_authority_seeds(),
                program_id,
            ) == Some((owner, disambiguator))),
{
    let tag = reward_tag_bytes();
    let context: Vec<Vec<u8>> = Vec::new();
    proof {
        assert(context.deep_view() =~= Seq::<Seq<u8>>::empty());
        assert(seeds_of(tag@, context.deep_view()) =~= mint_authority_seeds());
    }
    Credential::Derived { tag, context, disambiguator }
}

/// Manufactures the signing credential of the vault authority for a mint
/// key, from the disambiguator the derivation settled on.
pub fn vault_credential(mint: &[u8; 32], disambiguator: u8) -> (c: Credential)
    ensures
        forall|owner: Seq<u8>, program_id: Seq<u8>|
            c.authorizes(owner, program_id) == (derived_address_of(vault_seeds(mint@), program_id)
                == Some((owner, disambiguator))),
{
    let tag = vault_tag_bytes();
    let mut context: Vec<Vec<u8>> = Vec::new();
    context.push(addr_to_vec(mint));
    proof {
        assert(context@[0].deep_view() =~= context@[0]@);
        assert(context.deep_view() =~= seq![mint@]);
        assert(seeds_of(tag@, context.deep_view()) =~= vault_seeds(mint@));
    }
    Credential::Derived { tag, context, disambiguator }
}

/// Law: derivation is deterministic. Two derivation results for the same
/// tag, context and program id are the same address and the same
/// disambiguator.
pub proof fn lemma_derivation_deterministic(
    tag: Seq<u8>,
    context: Seq<Seq<u8>>,
    program_id: Seq<u8>,
    r1: Option<(Seq<u8>, u8)>,
    r2: Option<(Seq<u8>, u8)>,
)
    requires
        r1 == derived_address_of(seeds_of(tag, context), program_id),
        r2 == derived_address_of(seeds_of(tag, context), program_id),
    ensures
        r1 == r2,
{
}

} // verus!
